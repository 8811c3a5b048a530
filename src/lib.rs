use vstd::prelude::*;

pub mod arena;
pub mod boolean_unique;
pub mod expr;
pub mod plan;
pub mod rewrite_laws;
pub mod slice_pushdown;

verus! {

} // verus!
