//! Verified core of the mycode coding agent.
use vstd::prelude::*;

pub mod anthropic;
pub mod app;
pub mod classic;
pub mod classic_drive;
pub mod envelope;
pub mod exchange;
pub mod frame;
pub mod git;
pub mod input;
pub mod json;
pub mod keys;
pub mod laws;
pub mod paths;
pub mod plugins;
pub mod protocol;
pub mod provider;
pub mod runtime;
pub mod selection;
pub mod service;
pub mod session;
pub mod shell;
pub mod sidechain;
pub mod slash;
pub mod style;
pub mod text;
pub mod todo;
pub mod tools;
pub mod transcript;
pub mod unicode;
pub mod workspace;

verus! {

} // verus!
