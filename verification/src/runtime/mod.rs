//! Device runtime support: persistent storage and device templates.

pub mod nv;
pub mod log_nv;
pub mod ram_flash;
pub mod builder;
pub mod templates;
