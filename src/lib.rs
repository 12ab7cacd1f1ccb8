use vstd::prelude::*;

pub mod cell;
pub mod coords;
pub mod laws;
pub mod sandbox;

verus! {

} // verus!
