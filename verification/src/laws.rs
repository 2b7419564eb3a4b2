//! What the operations of the agent are for, stated of their inputs and results.
use vstd::prelude::*;

pub mod acting;
pub mod answering;
pub mod asking;
pub mod deciding;
pub mod driving;
pub mod framing;
pub mod places;
pub mod plugging;
pub mod pointing;
pub mod promises;
pub mod reporting;
pub mod serving;
pub mod showing;
pub mod small;
pub mod texts;
pub mod typing;
pub mod views;

verus! {

} // verus!
