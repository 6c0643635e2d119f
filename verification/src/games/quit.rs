//! The entry of the game list that ends the program.

use vstd::prelude::*;

verus! {

/// Leaves the program when it is run.
#[derive(Debug, Clone, Copy, PartialEq, Eq)]
pub struct Quit {}

} // verus!
