//! IEEE 802.15.4 MAC layer: primitives, frame codecs, PIB and radio drivers.

pub mod primitives;
pub mod frames;
pub mod pib;
pub mod cc2340;
pub mod esp;
pub mod backends;
