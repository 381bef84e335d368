use vstd::prelude::*;

pub mod command;
pub mod dialog;
pub mod laws;
pub mod merge;
pub mod model;
pub mod preview;
pub mod review;
pub mod search;
pub mod selector;
pub mod session;
pub mod text;

verus! {

} // verus!
