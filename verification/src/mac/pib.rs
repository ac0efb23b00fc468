//! MAC PAN Information Base (PIB) attributes and values.
//!
//! PIB attributes are the configuration interface between the Zigbee NWK layer
//! and the MAC. The NWK layer uses MLME-GET/SET to read and write these.

use vstd::prelude::*;
use crate::types::{IeeeAddress, PanId, ShortAddress};

verus! {

/// MAC PIB attribute identifiers (IEEE 802.15.4), those used by Zigbee PRO.
#[derive(Debug, Clone, Copy, PartialEq, Eq, Structural)]
pub enum PibAttribute {
    /// Own 16-bit short address. Default: 0xFFFF (unassigned) (0x53)
    MacShortAddress,
    /// PAN ID of the network we're in. Default: 0xFFFF (not associated) (0x50)
    MacPanId,
    /// Own 64-bit IEEE address (read from hardware, usually read-only) (0x6F)
    MacExtendedAddress,
    /// Short address of our parent coordinator/router (0x4B)
    MacCoordShortAddress,
    /// Extended address of our parent coordinator/router (0x4A)
    MacCoordExtendedAddress,
    /// True if this device is the PAN coordinator (0x56)
    MacAssociatedPanCoord,
    /// RX enabled during idle (true for ZC/ZR, false for sleepy ZED) (0x52)
    MacRxOnWhenIdle,
    /// True = accepting association requests (join permit open) (0x41)
    MacAssociationPermit,
    /// Beacon order. Always 15 for Zigbee PRO (non-beacon mode) (0x47)
    MacBeaconOrder,
    /// Superframe order. Always 15 for Zigbee PRO (0x54)
    MacSuperframeOrder,
    /// Beacon payload bytes (NWK beacon content for ZC/ZR) (0x45)
    MacBeaconPayload,
    /// Length of beacon payload (0x46)
    MacBeaconPayloadLength,
    /// Auto data-request after beacon with pending bit (ZED) (0x42)
    MacAutoRequest,
    /// Max CSMA-CA backoffs (default 4) (0x4E)
    MacMaxCsmaBackoffs,
    /// Min backoff exponent (default 3 for 2.4 GHz) (0x4F)
    MacMinBe,
    /// Max backoff exponent (default 5) (0x57)
    MacMaxBe,
    /// Max frame retries after ACK failure (default 3) (0x59)
    MacMaxFrameRetries,
    /// Max wait for indirect TX frame (symbols) (0x58)
    MacMaxFrameTotalWaitTime,
    /// Response wait time for association etc (0x5A)
    MacResponseWaitTime,
    /// Data/command frame sequence number (0x4C)
    MacDsn,
    /// Beacon sequence number (0x49)
    MacBsn,
    /// How long coordinator stores indirect frames (symbols) (0x55)
    MacTransactionPersistenceTime,
    /// Promiscuous mode (sniffer use) (0x51)
    MacPromiscuousMode,
    /// Current channel (11-26 for 2.4 GHz) (0x00)
    PhyCurrentChannel,
    /// Supported channels bitmask (0x07FFF800 for 2.4 GHz) (0x01)
    PhyChannelsSupported,
    /// TX power in dBm (0x02)
    PhyTransmitPower,
    /// CCA mode (0x03)
    PhyCcaMode,
    /// Channel page (always 0 for 2.4 GHz Zigbee) (0x04)
    PhyCurrentPage,
}

impl PibAttribute {
    /// Attribute identifier on the wire.
    pub open spec fn spec_code(self) -> u8 {
        match self {
            PibAttribute::MacShortAddress => 0x53,
            PibAttribute::MacPanId => 0x50,
            PibAttribute::MacExtendedAddress => 0x6F,
            PibAttribute::MacCoordShortAddress => 0x4B,
            PibAttribute::MacCoordExtendedAddress => 0x4A,
            PibAttribute::MacAssociatedPanCoord => 0x56,
            PibAttribute::MacRxOnWhenIdle => 0x52,
            PibAttribute::MacAssociationPermit => 0x41,
            PibAttribute::MacBeaconOrder => 0x47,
            PibAttribute::MacSuperframeOrder => 0x54,
            PibAttribute::MacBeaconPayload => 0x45,
            PibAttribute::MacBeaconPayloadLength => 0x46,
            PibAttribute::MacAutoRequest => 0x42,
            PibAttribute::MacMaxCsmaBackoffs => 0x4E,
            PibAttribute::MacMinBe => 0x4F,
            PibAttribute::MacMaxBe => 0x57,
            PibAttribute::MacMaxFrameRetries => 0x59,
            PibAttribute::MacMaxFrameTotalWaitTime => 0x58,
            PibAttribute::MacResponseWaitTime => 0x5A,
            PibAttribute::MacDsn => 0x4C,
            PibAttribute::MacBsn => 0x49,
            PibAttribute::MacTransactionPersistenceTime => 0x55,
            PibAttribute::MacPromiscuousMode => 0x51,
            PibAttribute::PhyCurrentChannel => 0x00,
            PibAttribute::PhyChannelsSupported => 0x01,
            PibAttribute::PhyTransmitPower => 0x02,
            PibAttribute::PhyCcaMode => 0x03,
            PibAttribute::PhyCurrentPage => 0x04,
        }
    }

    /// Attribute identifier on the wire.
    pub fn code(&self) -> (r: u8)
        ensures
            r == self.spec_code(),
    {
        match self {
            PibAttribute::MacShortAddress => 0x53,
            PibAttribute::MacPanId => 0x50,
            PibAttribute::MacExtendedAddress => 0x6F,
            PibAttribute::MacCoordShortAddress => 0x4B,
            PibAttribute::MacCoordExtendedAddress => 0x4A,
            PibAttribute::MacAssociatedPanCoord => 0x56,
            PibAttribute::MacRxOnWhenIdle => 0x52,
            PibAttribute::MacAssociationPermit => 0x41,
            PibAttribute::MacBeaconOrder => 0x47,
            PibAttribute::MacSuperframeOrder => 0x54,
            PibAttribute::MacBeaconPayload => 0x45,
            PibAttribute::MacBeaconPayloadLength => 0x46,
            PibAttribute::MacAutoRequest => 0x42,
            PibAttribute::MacMaxCsmaBackoffs => 0x4E,
            PibAttribute::MacMinBe => 0x4F,
            PibAttribute::MacMaxBe => 0x57,
            PibAttribute::MacMaxFrameRetries => 0x59,
            PibAttribute::MacMaxFrameTotalWaitTime => 0x58,
            PibAttribute::MacResponseWaitTime => 0x5A,
            PibAttribute::MacDsn => 0x4C,
            PibAttribute::MacBsn => 0x49,
            PibAttribute::MacTransactionPersistenceTime => 0x55,
            PibAttribute::MacPromiscuousMode => 0x51,
            PibAttribute::PhyCurrentChannel => 0x00,
            PibAttribute::PhyChannelsSupported => 0x01,
            PibAttribute::PhyTransmitPower => 0x02,
            PibAttribute::PhyCcaMode => 0x03,
            PibAttribute::PhyCurrentPage => 0x04,
        }
    }
}

/// Maximum beacon payload length in bytes.
pub const MAX_BEACON_PAYLOAD: usize = 52;

/// Fixed-capacity beacon payload buffer (at most 52 bytes).
#[derive(Debug)]
pub struct PibPayload {
    buf: [u8; 52],
    len: usize,
}

impl PibPayload {
    #[verifier::type_invariant]
    spec fn inv(self) -> bool {
        self.len <= 52
    }

    /// The payload bytes.
    pub closed spec fn spec_bytes(self) -> Seq<u8> {
        self.buf@.subrange(0, self.len as int)
    }

    /// Empty payload.
    pub fn new() -> (r: Self)
        ensures
            r.spec_bytes() == Seq::<u8>::empty(),
    {
        let r = Self { buf: [0u8; 52], len: 0 };
        assert(r.spec_bytes() =~= Seq::<u8>::empty());
        r
    }

    /// A payload holding `data`; `None` when `data` is longer than 52 bytes.
    pub fn from_slice(data: &[u8]) -> (r: Option<Self>)
        ensures
            r is Some <==> data@.len() <= 52,
            r matches Some(p) ==> p.spec_bytes() == data@,
    {
        if data.len() > 52 {
            return None;
        }
        let mut buf = [0u8; 52];
        let n = data.len();
        let mut i: usize = 0;
        while i < n
            invariant
                i <= n,
                n == data@.len(),
                n <= 52,
                forall|j: int| 0 <= j < i ==> buf@[j] == data@[j],
            decreases n - i,
        {
            buf[i] = data[i];
            i += 1;
        }
        let p = Self { buf, len: n };
        assert(p.spec_bytes() =~= data@);
        Some(p)
    }

    /// The payload bytes.
    pub fn as_slice(&self) -> (r: &[u8])
        ensures
            r@ == self.spec_bytes(),
            r@.len() <= 52,
    {
        proof {
            use_type_invariant(self);
        }
        vstd::slice::slice_subrange(self.buf.as_slice(), 0, self.len)
    }
}

impl Clone for PibPayload {
    fn clone(&self) -> (r: Self)
        ensures
            r.spec_bytes() == self.spec_bytes(),
    {
        proof {
            use_type_invariant(self);
        }
        Self { buf: self.buf, len: self.len }
    }
}

impl Default for PibPayload {
    fn default() -> (r: Self)
        ensures
            r.spec_bytes() == Seq::<u8>::empty(),
    {
        Self::new()
    }
}

/// Value container for PIB GET/SET operations.
#[derive(Debug, Clone)]
pub enum PibValue {
    Bool(bool),
    U8(u8),
    U16(u16),
    U32(u32),
    I8(i8),
    ShortAddress(ShortAddress),
    PanId(PanId),
    ExtendedAddress(IeeeAddress),
    /// Variable-length beacon payload (max 52 bytes)
    Payload(PibPayload),
}

impl PibValue {

    /// The value, when it is a `Bool`.
    pub fn as_bool(&self) -> (r: Option<bool>)
        ensures
            r is Some <==> self is Bool,
            r matches Some(v) ==> *self == PibValue::Bool(v),
    {
        match self {
            Self::Bool(v) => Some(*v),
            _ => None,
        }
    }

    /// The value, when it is a `U8`.
    pub fn as_u8(&self) -> (r: Option<u8>)
        ensures
            r is Some <==> self is U8,
            r matches Some(v) ==> *self == PibValue::U8(v),
    {
        match self {
            Self::U8(v) => Some(*v),
            _ => None,
        }
    }

    /// The value, when it is a `U16`.
    pub fn as_u16(&self) -> (r: Option<u16>)
        ensures
            r is Some <==> self is U16,
            r matches Some(v) ==> *self == PibValue::U16(v),
    {
        match self {
            Self::U16(v) => Some(*v),
            _ => None,
        }
    }

    /// The value, when it is a `U32`.
    pub fn as_u32(&self) -> (r: Option<u32>)
        ensures
            r is Some <==> self is U32,
            r matches Some(v) ==> *self == PibValue::U32(v),
    {
        match self {
            Self::U32(v) => Some(*v),
            _ => None,
        }
    }

    /// The value, when it is a `ShortAddress`.
    pub fn as_short_address(&self) -> (r: Option<ShortAddress>)
        ensures
            r is Some <==> self is ShortAddress,
            r matches Some(v) ==> *self == PibValue::ShortAddress(v),
    {
        match self {
            Self::ShortAddress(v) => Some(*v),
            _ => None,
        }
    }

    /// The value, when it is a `PanId`.
    pub fn as_pan_id(&self) -> (r: Option<PanId>)
        ensures
            r is Some <==> self is PanId,
            r matches Some(v) ==> *self == PibValue::PanId(v),
    {
        match self {
            Self::PanId(v) => Some(*v),
            _ => None,
        }
    }

    /// The value, when it is a `ExtendedAddress`.
    pub fn as_extended_address(&self) -> (r: Option<IeeeAddress>)
        ensures
            r is Some <==> self is ExtendedAddress,
            r matches Some(v) ==> *self == PibValue::ExtendedAddress(v),
    {
        match self {
            Self::ExtendedAddress(v) => Some(*v),
            _ => None,
        }
    }

}

// ── PHY constants ───────────────────────────────────────────────

/// Base superframe duration in symbols (960)
pub const A_BASE_SUPERFRAME_DURATION: u32 = 960;

/// Symbol rate at 2.4 GHz in symbols/second
pub const SYMBOL_RATE_2_4GHZ: u32 = 62_500;

/// Symbols of the deep scan (exponent 8): 247 296, that is 3 957 ms.
pub const DEEP_SCAN_SYMBOLS: u32 = 247_296;

/// Scan duration per channel, in symbols, for a scan exponent:
/// 960 × (2^exponent + 1), except for the deep scan (exponent 8), which
/// lasts [`DEEP_SCAN_SYMBOLS`].
pub open spec fn spec_scan_duration_symbols(exponent: nat) -> int {
    if exponent == 8 {
        DEEP_SCAN_SYMBOLS as int
    } else {
        A_BASE_SUPERFRAME_DURATION * (vstd::arithmetic::power2::pow2(exponent) + 1)
    }
}

/// The scan lasts 1 920 symbols at exponent 0; each exponent one higher
/// doubles the time past one superframe (960 symbols), except the deep
/// scan (exponent 8), which lasts 247 296 symbols.
pub proof fn law_scan_duration_steps(exponent: nat)
    ensures
        spec_scan_duration_symbols(0) == 1920,
        spec_scan_duration_symbols(8) == 247_296,
        exponent != 7 && exponent != 8 ==> spec_scan_duration_symbols(exponent + 1) - 960 == 2 * (
        spec_scan_duration_symbols(exponent) - 960),
{
    vstd::arithmetic::power2::lemma2_to64();
    vstd::arithmetic::power2::lemma_pow2_unfold(exponent + 1);
}

/// Calculate scan duration per channel in symbols: 960 × (2^exponent + 1),
/// and [`DEEP_SCAN_SYMBOLS`] for the deep scan (exponent 8).
///
/// Exponents above 22 overflow a `u32` and are not accepted.
pub fn scan_duration_symbols(exponent: u8) -> (r: u32)
    requires
        exponent <= 22,
    ensures
        r == spec_scan_duration_symbols(exponent as nat),
{
    proof {
        vstd::arithmetic::power2::lemma2_to64();
        if exponent < 22 {
            vstd::arithmetic::power2::lemma_pow2_strictly_increases(exponent as nat, 22);
        }
        vstd::bits::lemma_u32_shl_is_mul(1, exponent as u32);
    }
    if exponent == 8 {
        return DEEP_SCAN_SYMBOLS;
    }
    A_BASE_SUPERFRAME_DURATION * ((1u32 << (exponent as u32)) + 1)
}

/// Calculate scan duration per channel in microseconds at 62 500 symbols/s.
pub fn scan_duration_us(exponent: u8) -> (r: u64)
    requires
        exponent <= 22,
    ensures
        r == spec_scan_duration_symbols(exponent as nat) * 1_000_000 / 62_500,
{
    let symbols = scan_duration_symbols(exponent) as u64;
    symbols * 1_000_000 / SYMBOL_RATE_2_4GHZ as u64
}

} // verus!
