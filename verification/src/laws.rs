//! What the operations are for, said of their inputs and results alone.
use vstd::prelude::*;

pub mod changes;
pub mod exchange;
pub mod finds;
pub mod numbers;
pub mod places;
pub mod scores;
pub mod texts;
pub mod tools;
pub mod views;

verus! {

} // verus!
