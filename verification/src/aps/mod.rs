//! Application Support sub-layer (APS).

pub mod frames;
pub mod layer;
