//! The APS layer state: status codes, addressing, transmit options and the
//! layer object that owns the NWK layer and the APS tables.

use vstd::prelude::*;
use crate::types::{IeeeAddress, ShortAddress};

verus! {

// ── Well-known endpoints ────────────────────────────────────────

/// ZDO endpoint (Zigbee Device Object)
pub const ZDO_ENDPOINT: u8 = 0x00;

/// Minimum application endpoint
pub const MIN_APP_ENDPOINT: u8 = 0x01;

/// Maximum application endpoint
pub const MAX_APP_ENDPOINT: u8 = 0xF0;

/// Broadcast endpoint — delivers to all active endpoints on a device
pub const BROADCAST_ENDPOINT: u8 = 0xFF;

// ── Well-known profile IDs ──────────────────────────────────────

/// Zigbee Device Profile (ZDP)
pub const PROFILE_ZDP: u16 = 0x0000;

/// Home Automation profile
pub const PROFILE_HOME_AUTOMATION: u16 = 0x0104;

/// Smart Energy profile
pub const PROFILE_SMART_ENERGY: u16 = 0x0109;

/// Zigbee Light Link (ZLL) profile
pub const PROFILE_ZLL: u16 = 0xC05E;

/// Wildcard profile — matches any profile
pub const PROFILE_WILDCARD: u16 = 0xFFFF;

// ── Status codes ────────────────────────────────────────────────

/// APS layer status codes.
#[derive(Debug, Clone, Copy, PartialEq, Eq, Structural)]
pub enum ApsStatus {
    /// Request executed successfully (0x00)
    Success,
    /// The ASDU is too large and fragmentation is not supported (0xA0)
    AsduTooLong,
    /// A received fragmented frame could not be defragmented (0xA1)
    DefragDeferred,
    /// Fragmentation is not supported (0xA2)
    DefragUnsupported,
    /// A parameter value was out of range (0xA3)
    IllegalRequest,
    /// UNBIND failed: binding table entry not found (0xA4)
    InvalidBinding,
    /// GET/SET with an unknown attribute identifier (0xA5)
    InvalidParameter,
    /// Acknowledged transmission received no acknowledgement (0xA6)
    NoAck,
    /// Indirect transmission with no bound devices (0xA7)
    NoBoundDevice,
    /// Group transmission with no matching group table entry (0xA8)
    NoShortAddress,
    /// Binding or group table full (0xA9)
    TableFull,
    /// Frame secured with a link key that is not in the key table (0xAA)
    UnsecuredKey,
    /// GET/SET with an unsupported attribute identifier (0xAB)
    UnsupportedAttribute,
    /// An unsecured frame was received (0xAD)
    SecurityFail,
    /// Decryption or authentication failed (0xAE)
    DecryptionError,
    /// Not enough buffers (0xAF)
    InsufficientSpace,
    /// No matching entry in the binding table (0xB0)
    NotFound,
}

impl ApsStatus {
    /// Wire code of the status.
    pub open spec fn spec_code(self) -> u8 {
        match self {
            ApsStatus::Success => 0x00,
            ApsStatus::AsduTooLong => 0xA0,
            ApsStatus::DefragDeferred => 0xA1,
            ApsStatus::DefragUnsupported => 0xA2,
            ApsStatus::IllegalRequest => 0xA3,
            ApsStatus::InvalidBinding => 0xA4,
            ApsStatus::InvalidParameter => 0xA5,
            ApsStatus::NoAck => 0xA6,
            ApsStatus::NoBoundDevice => 0xA7,
            ApsStatus::NoShortAddress => 0xA8,
            ApsStatus::TableFull => 0xA9,
            ApsStatus::UnsecuredKey => 0xAA,
            ApsStatus::UnsupportedAttribute => 0xAB,
            ApsStatus::SecurityFail => 0xAD,
            ApsStatus::DecryptionError => 0xAE,
            ApsStatus::InsufficientSpace => 0xAF,
            ApsStatus::NotFound => 0xB0,
        }
    }

    /// Wire code of the status.
    pub fn code(&self) -> (r: u8)
        ensures
            r == self.spec_code(),
    {
        match self {
            ApsStatus::Success => 0x00,
            ApsStatus::AsduTooLong => 0xA0,
            ApsStatus::DefragDeferred => 0xA1,
            ApsStatus::DefragUnsupported => 0xA2,
            ApsStatus::IllegalRequest => 0xA3,
            ApsStatus::InvalidBinding => 0xA4,
            ApsStatus::InvalidParameter => 0xA5,
            ApsStatus::NoAck => 0xA6,
            ApsStatus::NoBoundDevice => 0xA7,
            ApsStatus::NoShortAddress => 0xA8,
            ApsStatus::TableFull => 0xA9,
            ApsStatus::UnsecuredKey => 0xAA,
            ApsStatus::UnsupportedAttribute => 0xAB,
            ApsStatus::SecurityFail => 0xAD,
            ApsStatus::DecryptionError => 0xAE,
            ApsStatus::InsufficientSpace => 0xAF,
            ApsStatus::NotFound => 0xB0,
        }
    }
}

// ── Addressing ──────────────────────────────────────────────────

/// APS addressing modes.
#[derive(Debug, Clone, Copy, PartialEq, Eq, Structural)]
pub enum ApsAddressMode {
    /// Indirect, via the binding table (0x00)
    Indirect,
    /// Group addressing, 16-bit group address (0x01)
    Group,
    /// Direct short: 16-bit NWK address + endpoint (0x02)
    Short,
    /// Direct extended: 64-bit IEEE address + endpoint (0x03)
    Extended,
}

impl ApsAddressMode {
    /// Wire code of the addressing mode.
    pub open spec fn spec_code(self) -> u8 {
        match self {
            ApsAddressMode::Indirect => 0x00,
            ApsAddressMode::Group => 0x01,
            ApsAddressMode::Short => 0x02,
            ApsAddressMode::Extended => 0x03,
        }
    }

    /// Wire code of the addressing mode.
    pub fn code(&self) -> (r: u8)
        ensures
            r == self.spec_code(),
    {
        match self {
            ApsAddressMode::Indirect => 0x00,
            ApsAddressMode::Group => 0x01,
            ApsAddressMode::Short => 0x02,
            ApsAddressMode::Extended => 0x03,
        }
    }
}

/// Destination/source address used in APS primitives.
#[derive(Debug, Clone, Copy, PartialEq, Eq)]
pub enum ApsAddress {
    /// 16-bit NWK short address
    Short(ShortAddress),
    /// 64-bit IEEE extended address
    Extended(IeeeAddress),
    /// 16-bit group address
    Group(u16),
}

/// APSDE-DATA.request TX options.
#[derive(Debug, Clone, Copy, Default)]
pub struct ApsTxOptions {
    /// Use APS-level security (link key encryption)
    pub security_enabled: bool,
    /// Use NWK key (standard NWK encryption)
    pub use_nwk_key: bool,
    /// Request APS acknowledgement
    pub ack_request: bool,
    /// Enable fragmentation
    pub fragmentation_permitted: bool,
    /// Include extended nonce in APS security frame
    pub include_extended_nonce: bool,
}

// ── The APS layer ───────────────────────────────────────────────

/// The APS layer: owns the NWK layer below it, the APS information base,
/// the binding and group tables, the APS security material, and the
/// outgoing APS counter.
///
/// Generic over the types of the layer it wraps and of its tables.
pub struct ApsLayer<N, A, B, G, S> {
    nwk: N,
    aib: A,
    binding_table: B,
    group_table: G,
    security: S,
    aps_counter: u8,
}

impl<N, A, B, G, S> ApsLayer<N, A, B, G, S> {
    pub closed spec fn spec_nwk(&self) -> N {
        self.nwk
    }

    pub closed spec fn spec_aib(&self) -> A {
        self.aib
    }

    pub closed spec fn spec_binding_table(&self) -> B {
        self.binding_table
    }

    pub closed spec fn spec_group_table(&self) -> G {
        self.group_table
    }

    pub closed spec fn spec_security(&self) -> S {
        self.security
    }

    /// The value the next call of `next_aps_counter` returns.
    pub closed spec fn spec_aps_counter(&self) -> u8 {
        self.aps_counter
    }

    /// Create the APS layer over `nwk`, with the given (fresh) information
    /// base, tables and security state; the APS counter starts at 0.
    pub fn new(nwk: N, aib: A, binding_table: B, group_table: G, security: S) -> (r: Self)
        ensures
            r.spec_nwk() == nwk,
            r.spec_aib() == aib,
            r.spec_binding_table() == binding_table,
            r.spec_group_table() == group_table,
            r.spec_security() == security,
            r.spec_aps_counter() == 0,
    {
        Self { nwk, aib, binding_table, group_table, security, aps_counter: 0 }
    }

    /// Get the next APS counter value; the counter wraps from 255 to 0.
    pub fn next_aps_counter(&mut self) -> (c: u8)
        ensures
            c == old(self).spec_aps_counter(),
            final(self).spec_aps_counter() == (if c == 255 { 0 } else { c + 1 }),
            final(self).spec_nwk() == old(self).spec_nwk(),
            final(self).spec_aib() == old(self).spec_aib(),
            final(self).spec_binding_table() == old(self).spec_binding_table(),
            final(self).spec_group_table() == old(self).spec_group_table(),
            final(self).spec_security() == old(self).spec_security(),
    {
        let c = self.aps_counter;
        self.aps_counter = self.aps_counter.wrapping_add(1);
        c
    }

    /// Reference to the underlying NWK layer.
    pub fn nwk(&self) -> (r: &N)
        ensures
            *r == self.spec_nwk(),
    {
        &self.nwk
    }

    /// Mutable reference to the underlying NWK layer.
    pub fn nwk_mut(&mut self) -> (r: &mut N)
        ensures
            *r == old(self).spec_nwk(),
            final(self).spec_nwk() == *final(r),
            final(self).spec_aib() == old(self).spec_aib(),
            final(self).spec_binding_table() == old(self).spec_binding_table(),
            final(self).spec_group_table() == old(self).spec_group_table(),
            final(self).spec_security() == old(self).spec_security(),
            final(self).spec_aps_counter() == old(self).spec_aps_counter(),
    {
        &mut self.nwk
    }

    /// Reference to the APS Information Base.
    pub fn aib(&self) -> (r: &A)
        ensures
            *r == self.spec_aib(),
    {
        &self.aib
    }

    /// Mutable reference to the APS Information Base.
    pub fn aib_mut(&mut self) -> (r: &mut A)
        ensures
            *r == old(self).spec_aib(),
            final(self).spec_aib() == *final(r),
            final(self).spec_nwk() == old(self).spec_nwk(),
            final(self).spec_binding_table() == old(self).spec_binding_table(),
            final(self).spec_group_table() == old(self).spec_group_table(),
            final(self).spec_security() == old(self).spec_security(),
            final(self).spec_aps_counter() == old(self).spec_aps_counter(),
    {
        &mut self.aib
    }

    /// Reference to the binding table.
    pub fn binding_table(&self) -> (r: &B)
        ensures
            *r == self.spec_binding_table(),
    {
        &self.binding_table
    }

    /// Mutable reference to the binding table.
    pub fn binding_table_mut(&mut self) -> (r: &mut B)
        ensures
            *r == old(self).spec_binding_table(),
            final(self).spec_binding_table() == *final(r),
            final(self).spec_nwk() == old(self).spec_nwk(),
            final(self).spec_aib() == old(self).spec_aib(),
            final(self).spec_group_table() == old(self).spec_group_table(),
            final(self).spec_security() == old(self).spec_security(),
            final(self).spec_aps_counter() == old(self).spec_aps_counter(),
    {
        &mut self.binding_table
    }

    /// Reference to the group table.
    pub fn group_table(&self) -> (r: &G)
        ensures
            *r == self.spec_group_table(),
    {
        &self.group_table
    }

    /// Mutable reference to the group table.
    pub fn group_table_mut(&mut self) -> (r: &mut G)
        ensures
            *r == old(self).spec_group_table(),
            final(self).spec_group_table() == *final(r),
            final(self).spec_nwk() == old(self).spec_nwk(),
            final(self).spec_aib() == old(self).spec_aib(),
            final(self).spec_binding_table() == old(self).spec_binding_table(),
            final(self).spec_security() == old(self).spec_security(),
            final(self).spec_aps_counter() == old(self).spec_aps_counter(),
    {
        &mut self.group_table
    }

    /// Reference to the APS security state.
    pub fn security(&self) -> (r: &S)
        ensures
            *r == self.spec_security(),
    {
        &self.security
    }

    /// Mutable reference to the APS security state.
    pub fn security_mut(&mut self) -> (r: &mut S)
        ensures
            *r == old(self).spec_security(),
            final(self).spec_security() == *final(r),
            final(self).spec_nwk() == old(self).spec_nwk(),
            final(self).spec_aib() == old(self).spec_aib(),
            final(self).spec_binding_table() == old(self).spec_binding_table(),
            final(self).spec_group_table() == old(self).spec_group_table(),
            final(self).spec_aps_counter() == old(self).spec_aps_counter(),
    {
        &mut self.security
    }
}

} // verus!
