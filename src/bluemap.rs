//! Parts of a BlueMap server's marker and world settings.
use vstd::prelude::*;

verus! {

/// Pixel offset of a marker's icon.
#[derive(Clone, Copy, Debug, PartialEq, Eq, Structural)]
pub struct Anchor {
    pub x: i32,
    pub y: i32,
}

/// Kind of a BlueMap marker.
#[derive(Clone, Copy, Debug, PartialEq, Eq, Structural)]
pub enum MarkerType {
    Poi,
}

/// Low-resolution tile layout of a world.
#[derive(Clone, Copy, Debug)]
pub struct LowresConfig {
    pub tile_size: [u32; 2],
    pub lod_factor: u32,
    pub lod_count: u32,
}

} // verus!
