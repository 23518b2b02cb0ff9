use vstd::prelude::*;

pub mod grammar;
pub mod rewrite;
pub mod system;
pub mod turtle;

verus! {

} // verus!
