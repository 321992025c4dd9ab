use vstd::prelude::*;

pub mod text;
pub mod glob;
pub mod diff;
pub mod spec;
pub mod hunkset;
pub mod semantic;
pub mod syntax;
pub mod commands;

verus! {

} // verus!
