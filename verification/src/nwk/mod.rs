//! Network layer (NWK).

pub mod nib;
