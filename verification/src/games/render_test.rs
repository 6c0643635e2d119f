//! A trial of the renderer on a cube.

use vstd::prelude::*;

verus! {

/// Builds the mesh of a cube and shows one rasterized image.
#[derive(Debug, Clone, Copy, PartialEq, Eq)]
pub struct RenderTest {}

} // verus!
