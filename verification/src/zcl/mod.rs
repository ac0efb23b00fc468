//! Zigbee Cluster Library (ZCL): frames and foundation commands.

pub mod frame;
pub mod foundation;
pub mod discover;
