use vstd::prelude::*;

pub mod binding_state;
pub mod builder;
pub mod decl;
pub mod merge;
pub mod laws;
pub mod meta;
pub mod render;
pub mod scan;

verus! {

} // verus!
