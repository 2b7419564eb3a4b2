# mycode

A coding agent on the terminal. A core process owns the state of a session and decides what happens
next; the agent asks a model, runs the tools of plugins and shows the conversation, each of these
only because the core asked for it.

## Layout

- `src/` is the library, verified with Verus: the decisions of the agent and of its plugins, from
  plain values to plain values. Each function states in its contract what it returns; the functions
  named `law_` state what holds of several of them together.
- `app/` holds the programs around it: the terminal, the core and plugin processes, the requests to
  a model, and files.
- `tests/` runs the library.

## Modules

| Module | What it is about |
| --- | --- |
| `text`, `unicode`, `json`, `paths` | texts, JSON values and paths |
| `session` | the state of a session and the events that change it |
| `runtime`, `classic_drive` | what is done for the effects of the core, step by step |
| `shell`, `keys`, `input`, `slash`, `selection`, `todo` | what the person at the terminal does |
| `app`, `transcript`, `frame`, `style` | what is shown |
| `provider`, `anthropic`, `exchange`, `tools` | what a model is asked, and what is taken from it |
| `protocol`, `envelope`, `plugins`, `service` | the plugin protocol, from both sides |
| `git`, `workspace` | the two plugins |
| `sidechain` | side questions and their file |
| `classic` | the small agent |
