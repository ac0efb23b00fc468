//! A Zigbee PRO protocol stack: frame codecs, MAC/NWK/APS/ZCL data types,
//! commissioning decisions and log-structured non-volatile storage.

pub mod types;
pub mod hvec;
pub mod aps;
pub mod mac;
pub mod nwk;
pub mod zcl;
pub mod runtime;
pub mod bdb;
