//! The tools that the model is offered.
use crate::json::{object, said_number, said_text, Json, JsonNumber, JsonView, ObjectBuilder};
use crate::protocol::ToolSpec;
use crate::provider::push_json;
use crate::text;
use vstd::prelude::*;
use vstd::string::*;

verus! {

/// What a tool declares.
#[verifier::ext_equal]
pub struct ToolSpecView {
    pub name: Seq<char>,
    pub description: Seq<char>,
    pub input_schema: JsonView,
}

impl DeepView for ToolSpec {
    type V = ToolSpecView;

    open spec fn deep_view(&self) -> ToolSpecView {
        ToolSpecView {
            name: self.name@,
            description: self.description@,
            input_schema: self.input_schema.deep_view(),
        }
    }
}

impl Clone for ToolSpec {
    fn clone(&self) -> (r: Self)
        ensures
            r.deep_view() == self.deep_view(),
    {
        ToolSpec {
            name: self.name.clone(),
            description: self.description.clone(),
            input_schema: self.input_schema.clone(),
        }
    }
}

/// Whether a tool of this name is declared.
pub open spec fn declares(tools: Seq<ToolSpecView>, name: Seq<char>) -> bool {
    exists|i: int| 0 <= i < tools.len() && #[trigger] tools[i].name == name
}

/// Whether a tool of this name is declared.
pub fn is_declared(tools: &Vec<ToolSpec>, name: &str) -> (r: bool)
    ensures
        r == declares(tools.deep_view(), name@),
{
    let ghost all = tools.deep_view();
    let mut i: usize = 0;
    while i < tools.len()
        invariant
            all == tools.deep_view(),
            i <= tools@.len(),
            forall|j: int| 0 <= j < i ==> #[trigger] all[j].name != name@,
        decreases tools@.len() - i,
    {
        assert(all[i as int].name == tools@[i as int].name@);
        if text::str_eq(tools[i].name.as_str(), name) {
            return true;
        }
        i += 1;
    }
    false
}

/// The schema of a text of at least one and at most `longest` characters.
pub open spec fn text_schema(longest: u64) -> JsonView {
    object(
        seq![
            ("type"@, said_text("string"@)),
            ("minLength"@, said_number(1)),
            ("maxLength"@, said_number(longest)),
        ],
    )
}

/// The schema of any text.
pub open spec fn any_text_schema() -> JsonView {
    object(seq![("type"@, said_text("string"@))])
}

/// The schema of any text.
pub fn build_any_text_schema() -> (r: Json)
    ensures
        r.deep_view() == any_text_schema(),
{
    let members = ObjectBuilder::new().text("type", "string");
    assert(members.said() =~= seq![("type"@, said_text("string"@))]);
    members.build()
}

/// The schema of one of some words.
pub open spec fn choice_schema(words: Seq<Seq<char>>) -> JsonView {
    object(
        seq![
            ("type"@, said_text("string"@)),
            ("enum"@, JsonView::Array(words.map_values(|word: Seq<char>| said_text(word)))),
        ],
    )
}

/// The schema of a list of at most `most` items.
pub open spec fn list_schema(most: u64, items: JsonView) -> JsonView {
    object(
        seq![
            ("type"@, said_text("array"@)),
            ("maxItems"@, said_number(most)),
            ("items"@, items),
        ],
    )
}

/// The schema of an object with these properties and no others.
pub open spec fn record_schema(
    properties: Seq<(Seq<char>, JsonView)>,
    required: Seq<Seq<char>>,
) -> JsonView {
    object(
        seq![
            ("type"@, said_text("object"@)),
            ("properties"@, object(properties)),
            ("required"@, JsonView::Array(required.map_values(|word: Seq<char>| said_text(word)))),
            ("additionalProperties"@, JsonView::Bool(false)),
        ],
    )
}

fn build_text_schema(longest: u64) -> (r: Json)
    ensures
        r.deep_view() == text_schema(longest),
{
    let members = ObjectBuilder::new().text("type", "string").with(
        "minLength",
        Json::Number(JsonNumber::Unsigned(1)),
    ).with("maxLength", Json::Number(JsonNumber::Unsigned(longest)));
    assert(members.said() =~= seq![
        ("type"@, said_text("string"@)),
        ("minLength"@, said_number(1)),
        ("maxLength"@, said_number(longest)),
    ]);
    members.build()
}

/// Texts as JSON.
fn build_words(words: &[&str]) -> (r: Json)
    ensures
        r.deep_view() == JsonView::Array(
            words.deep_view().map_values(|word: Seq<char>| said_text(word)),
        ),
{
    let ghost wanted = words.deep_view().map_values(|word: Seq<char>| said_text(word));
    let mut out: Vec<Json> = Vec::new();
    let mut i: usize = 0;
    assert(out.deep_view() =~= wanted.take(0));
    while i < words.len()
        invariant
            wanted == words.deep_view().map_values(|word: Seq<char>| said_text(word)),
            i <= words@.len(),
            out.deep_view() == wanted.take(i as int),
        decreases words@.len() - i,
    {
        push_json(&mut out, Json::of_text(words[i]));
        assert(out.deep_view() =~= wanted.take(i + 1));
        i += 1;
    }
    assert(wanted.take(i as int) =~= wanted);
    Json::of_items(out)
}

/// The schema of one of some words.
pub fn build_choice_schema(words: &[&str]) -> (r: Json)
    ensures
        r.deep_view() == choice_schema(words.deep_view()),
{
    let members = ObjectBuilder::new().text("type", "string").with("enum", build_words(words));
    assert(members.said() =~= seq![
        ("type"@, said_text("string"@)),
        (
            "enum"@,
            JsonView::Array(words.deep_view().map_values(|word: Seq<char>| said_text(word))),
        ),
    ]);
    members.build()
}

fn build_list_schema(most: u64, items: Json) -> (r: Json)
    ensures
        r.deep_view() == list_schema(most, items.deep_view()),
{
    let members = ObjectBuilder::new().text("type", "array").with(
        "maxItems",
        Json::Number(JsonNumber::Unsigned(most)),
    ).with("items", items);
    assert(members.said() =~= seq![
        ("type"@, said_text("array"@)),
        ("maxItems"@, said_number(most)),
        ("items"@, items.deep_view()),
    ]);
    members.build()
}

/// The schema of an object with these properties and no others.
pub fn build_record_schema(properties: ObjectBuilder, required: &[&str]) -> (r: Json)
    ensures
        r.deep_view() == record_schema(properties.said(), required.deep_view()),
{
    let members = ObjectBuilder::new().text("type", "object").with(
        "properties",
        properties.build(),
    ).with("required", build_words(required)).with("additionalProperties", Json::Bool(false));
    assert(members.said() =~= seq![
        ("type"@, said_text("object"@)),
        ("properties"@, object(properties.said())),
        (
            "required"@,
            JsonView::Array(required.deep_view().map_values(|word: Seq<char>| said_text(word))),
        ),
        ("additionalProperties"@, JsonView::Bool(false)),
    ]);
    members.build()
}

/// The schema of a task.
pub open spec fn task_schema() -> JsonView {
    record_schema(
        seq![
            ("content"@, text_schema(200)),
            (
                "status"@,
                choice_schema(
                    seq!["pending"@, "in_progress"@, "completed"@, "abandoned"@, "blocked"@],
                ),
            ),
            ("blocker"@, text_schema(200)),
        ],
        seq!["content"@, "status"@],
    )
}

/// The schema of a phase.
pub open spec fn phase_schema() -> JsonView {
    record_schema(
        seq![("name"@, text_schema(200)), ("tasks"@, list_schema(64, task_schema()))],
        seq!["name"@, "tasks"@],
    )
}

/// The operations of the todo tool.
pub open spec fn todo_operations() -> Seq<Seq<char>> {
    seq![
        "init"@,
        "append"@,
        "start"@,
        "done"@,
        "drop"@,
        "block"@,
        "unblock"@,
        "rm"@,
        "view"@,
    ]
}

/// The tool that keeps the todo list.
pub open spec fn todo_tool() -> ToolSpecView {
    ToolSpecView {
        name: "todo"@,
        description: "Maintain the session task list. Use it for work with three or more distinct steps and update status as work changes."@,
        input_schema: record_schema(
            seq![
                ("op"@, choice_schema(todo_operations())),
                ("phases"@, list_schema(16, phase_schema())),
                ("task"@, text_schema(200)),
                ("phase"@, text_schema(200)),
                ("items"@, list_schema(64, text_schema(200))),
                ("reason"@, text_schema(200)),
            ],
            seq!["op"@],
        ),
    }
}

fn build_task_schema() -> (r: Json)
    ensures
        r.deep_view() == task_schema(),
{
    let words = ["pending", "in_progress", "completed", "abandoned", "blocked"];
    let statuses = build_choice_schema(&words);
    assert(words.deep_view() =~= seq![
        "pending"@,
        "in_progress"@,
        "completed"@,
        "abandoned"@,
        "blocked"@,
    ]);
    let properties = ObjectBuilder::new().with("content", build_text_schema(200)).with(
        "status",
        statuses,
    ).with("blocker", build_text_schema(200));
    assert(properties.said() =~= seq![
        ("content"@, text_schema(200)),
        ("status"@, statuses.deep_view()),
        ("blocker"@, text_schema(200)),
    ]);
    let required = ["content", "status"];
    assert(required.deep_view() =~= seq!["content"@, "status"@]);
    build_record_schema(properties, &required)
}

fn build_phase_schema() -> (r: Json)
    ensures
        r.deep_view() == phase_schema(),
{
    let properties = ObjectBuilder::new().with("name", build_text_schema(200)).with(
        "tasks",
        build_list_schema(64, build_task_schema()),
    );
    assert(properties.said() =~= seq![
        ("name"@, text_schema(200)),
        ("tasks"@, list_schema(64, task_schema())),
    ]);
    let required = ["name", "tasks"];
    assert(required.deep_view() =~= seq!["name"@, "tasks"@]);
    build_record_schema(properties, &required)
}

/// The tool that keeps the todo list.
pub fn todo_tool_spec() -> (r: ToolSpec)
    ensures
        r.deep_view() == todo_tool(),
{
    let words = ["init", "append", "start", "done", "drop", "block", "unblock", "rm", "view"];
    assert(words.deep_view() =~= todo_operations());
    let properties = ObjectBuilder::new().with("op", build_choice_schema(&words)).with(
        "phases",
        build_list_schema(16, build_phase_schema()),
    ).with("task", build_text_schema(200)).with("phase", build_text_schema(200)).with(
        "items",
        build_list_schema(64, build_text_schema(200)),
    ).with("reason", build_text_schema(200));
    assert(properties.said() =~= seq![
        ("op"@, choice_schema(todo_operations())),
        ("phases"@, list_schema(16, phase_schema())),
        ("task"@, text_schema(200)),
        ("phase"@, text_schema(200)),
        ("items"@, list_schema(64, text_schema(200))),
        ("reason"@, text_schema(200)),
    ]);
    let required = ["op"];
    assert(required.deep_view() =~= seq!["op"@]);
    ToolSpec {
        name: "todo".to_owned(),
        description: "Maintain the session task list. Use it for work with three or more distinct steps and update status as work changes.".to_owned(),
        input_schema: build_record_schema(properties, &required),
    }
}

/// The tool that keeps the plan.
pub open spec fn plan_tool() -> ToolSpecView {
    ToolSpecView {
        name: "plan"@,
        description: "Update the Markdown implementation plan during plan mode. Use op=update while drafting and op=propose when it is ready for human review."@,
        input_schema: record_schema(
            seq![
                ("op"@, choice_schema(seq!["update"@, "propose"@])),
                ("content"@, text_schema(65536)),
            ],
            seq!["op"@, "content"@],
        ),
    }
}

/// The tool that keeps the plan.
pub fn plan_tool_spec() -> (r: ToolSpec)
    ensures
        r.deep_view() == plan_tool(),
{
    let words = ["update", "propose"];
    assert(words.deep_view() =~= seq!["update"@, "propose"@]);
    let properties = ObjectBuilder::new().with("op", build_choice_schema(&words)).with(
        "content",
        build_text_schema(65536),
    );
    assert(properties.said() =~= seq![
        ("op"@, choice_schema(seq!["update"@, "propose"@])),
        ("content"@, text_schema(65536)),
    ]);
    let required = ["op", "content"];
    assert(required.deep_view() =~= seq!["op"@, "content"@]);
    ToolSpec {
        name: "plan".to_owned(),
        description: "Update the Markdown implementation plan during plan mode. Use op=update while drafting and op=propose when it is ready for human review.".to_owned(),
        input_schema: build_record_schema(properties, &required),
    }
}

/// Whether a tool never changes anything.
pub open spec fn reads_only(name: Seq<char>) -> bool {
    name == "read"@ || name == "grep"@
}

/// Whether a tool is offered in plan mode.
pub open spec fn fits_plan_mode(name: Seq<char>) -> bool {
    name == "read"@ || name == "grep"@ || name == "bash"@
}

/// The names of the tools that need no approval.
pub open spec fn safe_names(tools: Seq<ToolSpecView>) -> Seq<Seq<char>>
    decreases tools.len(),
{
    if tools.len() == 0 {
        Seq::empty()
    } else if reads_only(tools.last().name) {
        safe_names(tools.drop_last()).push(tools.last().name)
    } else {
        safe_names(tools.drop_last())
    }
}

/// The names of the tools that need no approval.
pub fn automatically_safe_tool_names(tools: &Vec<ToolSpec>) -> (r: Vec<String>)
    ensures
        r.deep_view() == safe_names(tools.deep_view()),
{
    let ghost all = tools.deep_view();
    let mut out: Vec<String> = Vec::new();
    let mut i: usize = 0;
    assert(out.deep_view() =~= Seq::empty());
    while i < tools.len()
        invariant
            all == tools.deep_view(),
            i <= tools@.len(),
            out.deep_view() == safe_names(all.take(i as int)),
        decreases tools@.len() - i,
    {
        assert(all.take(i + 1).drop_last() =~= all.take(i as int));
        assert(all[i as int] == tools@[i as int].deep_view());
        let name = tools[i].name.as_str();
        if text::str_eq(name, "read") || text::str_eq(name, "grep") {
            let ghost before = out.deep_view();
            out.push(tools[i].name.clone());
            assert(out.deep_view() =~= before.push(name@));
        }
        i += 1;
    }
    assert(all.take(i as int) =~= all);
    out
}

/// Only tools that are declared and read alone run without approval.
pub proof fn law_safe_tools_read_only(tools: Seq<ToolSpecView>, i: int)
    requires
        0 <= i < safe_names(tools).len(),
    ensures
        reads_only(safe_names(tools)[i]),
        declares(tools, safe_names(tools)[i]),
    decreases tools.len(),
{
    let before = safe_names(tools.drop_last());
    if i < before.len() {
        law_safe_tools_read_only(tools.drop_last(), i);
        let k = choose|k: int|
            0 <= k < tools.drop_last().len() && #[trigger] tools.drop_last()[k].name == before[i];
        assert(tools[k].name == before[i]);
    } else {
        assert(tools[tools.len() - 1].name == safe_names(tools)[i]);
    }
}

/// The tools of the plan mode among `tools`.
pub open spec fn plan_mode_tools(tools: Seq<ToolSpecView>) -> Seq<ToolSpecView>
    decreases tools.len(),
{
    if tools.len() == 0 {
        Seq::empty()
    } else if fits_plan_mode(tools.last().name) {
        plan_mode_tools(tools.drop_last()).push(tools.last())
    } else {
        plan_mode_tools(tools.drop_last())
    }
}

/// The tools that the model is offered: in normal mode, in plan mode, and those it may call.
#[derive(Debug)]
pub struct ModelToolCatalogs {
    pub normal: Vec<ToolSpec>,
    pub plan: Vec<ToolSpec>,
    pub declared: Vec<ToolSpec>,
}

/// Adds a tool.
pub fn push_tool(tools: &mut Vec<ToolSpec>, tool: ToolSpec)
    ensures
        final(tools).deep_view() == old(tools).deep_view().push(tool.deep_view()),
{
    let ghost before = tools.deep_view();
    tools.push(tool);
    assert(tools.deep_view() =~= before.push(tool.deep_view()));
}

/// The tools that the model is offered, with these tools of plugins.
pub fn model_tool_catalogs(plugin_tools: &Vec<ToolSpec>) -> (r: ModelToolCatalogs)
    ensures
        r.normal.deep_view() == plugin_tools.deep_view().push(todo_tool()),
        r.plan.deep_view() == plan_mode_tools(plugin_tools.deep_view()).push(todo_tool()).push(
            plan_tool(),
        ),
        r.declared.deep_view() == plugin_tools.deep_view().push(todo_tool()).push(plan_tool()),
{
    let ghost all = plugin_tools.deep_view();
    let mut normal: Vec<ToolSpec> = Vec::new();
    let mut plan: Vec<ToolSpec> = Vec::new();
    let mut declared: Vec<ToolSpec> = Vec::new();
    assert(normal.deep_view() =~= all.take(0));
    assert(plan.deep_view() =~= plan_mode_tools(all.take(0)));
    assert(declared.deep_view() =~= all.take(0));
    let mut i: usize = 0;
    while i < plugin_tools.len()
        invariant
            all == plugin_tools.deep_view(),
            i <= plugin_tools@.len(),
            normal.deep_view() == all.take(i as int),
            plan.deep_view() == plan_mode_tools(all.take(i as int)),
            declared.deep_view() == all.take(i as int),
        decreases plugin_tools@.len() - i,
    {
        let tool = &plugin_tools[i];
        assert(all.take(i + 1).drop_last() =~= all.take(i as int));
        assert(all[i as int] == tool.deep_view());
        assert(all.take(i + 1) =~= all.take(i as int).push(tool.deep_view()));
        push_tool(&mut normal, tool.clone());
        push_tool(&mut declared, tool.clone());
        let name = tool.name.as_str();
        if text::str_eq(name, "read") || text::str_eq(name, "grep") || text::str_eq(name, "bash") {
            push_tool(&mut plan, tool.clone());
        }
        i += 1;
    }
    assert(all.take(i as int) =~= all);
    push_tool(&mut normal, todo_tool_spec());
    push_tool(&mut plan, todo_tool_spec());
    push_tool(&mut plan, plan_tool_spec());
    push_tool(&mut declared, todo_tool_spec());
    push_tool(&mut declared, plan_tool_spec());
    ModelToolCatalogs { normal, plan, declared }
}

/// In plan mode no tool of a plugin is offered that writes files: each is declared, and is one of
/// those that fit the mode.
pub proof fn law_plan_mode_offers_no_writes(tools: Seq<ToolSpecView>, i: int)
    requires
        0 <= i < plan_mode_tools(tools).len(),
    ensures
        fits_plan_mode(plan_mode_tools(tools)[i].name),
        tools.contains(plan_mode_tools(tools)[i]),
    decreases tools.len(),
{
    let before = plan_mode_tools(tools.drop_last());
    if i < before.len() {
        law_plan_mode_offers_no_writes(tools.drop_last(), i);
        let k = choose|k: int|
            0 <= k < tools.drop_last().len() && #[trigger] tools.drop_last()[k] == before[i];
        assert(tools[k] == before[i]);
    } else {
        assert(tools[tools.len() - 1] == plan_mode_tools(tools)[i]);
    }
}

} // verus!
