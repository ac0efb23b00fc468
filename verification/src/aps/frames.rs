//! APS frame header encoding and decoding.
//!
//! ```text
//! APS Frame Control (1 byte)
//!  ├── Frame Type       (bits 0-1)
//!  ├── Delivery Mode    (bits 2-3)
//!  ├── Ack Format       (bit 4)
//!  ├── Security         (bit 5)
//!  ├── Ack Request      (bit 6)
//!  └── Extended Header  (bit 7)
//! Dst Endpoint (1 byte)       — unicast/broadcast data & ack frames
//! Group Address (2 bytes LE)  — group delivery
//! Cluster ID (2 bytes LE)     — data & ack frames
//! Profile ID (2 bytes LE)     — data & ack frames
//! Src Endpoint (1 byte)       — data, ack & command frames
//! APS Counter (1 byte)
//! [Extended Header]           — when the extended-header bit is set
//! ```

use vstd::prelude::*;
use crate::types::{spec_le_u16, spec_lo, spec_hi, le_u16, u16_le_bytes, lemma_le_u16_split, lemma_le_u16_join};

verus! {

// ── Frame types ─────────────────────────────────────────────────

/// APS frame types.
#[derive(Debug, Clone, Copy, PartialEq, Eq, Structural)]
pub enum ApsFrameType {
    /// Data frame — carries application data (0x00)
    Data,
    /// APS command frame (0x01)
    Command,
    /// Acknowledgement frame (0x02)
    Ack,
    /// Inter-PAN frame (0x03)
    InterPan,
}

impl ApsFrameType {
    /// Wire code of the frame type.
    pub open spec fn spec_code(self) -> u8 {
        match self {
            ApsFrameType::Data => 0x00,
            ApsFrameType::Command => 0x01,
            ApsFrameType::Ack => 0x02,
            ApsFrameType::InterPan => 0x03,
        }
    }

    /// Wire code of the frame type.
    pub fn code(&self) -> (r: u8)
        ensures
            r == self.spec_code(),
    {
        match self {
            ApsFrameType::Data => 0x00,
            ApsFrameType::Command => 0x01,
            ApsFrameType::Ack => 0x02,
            ApsFrameType::InterPan => 0x03,
        }
    }

    /// Decode a frame type from its 2-bit code.
    pub fn from_u8(v: u8) -> (r: Option<Self>)
        ensures
            r is Some <==> v <= 0x03,
            r matches Some(t) ==> t.spec_code() == v,
    {
        match v {
            0x00 => Some(Self::Data),
            0x01 => Some(Self::Command),
            0x02 => Some(Self::Ack),
            0x03 => Some(Self::InterPan),
            _ => None,
        }
    }
}

// ── Delivery modes ──────────────────────────────────────────────

/// APS delivery modes.
#[derive(Debug, Clone, Copy, PartialEq, Eq, Structural)]
pub enum ApsDeliveryMode {
    /// Normal unicast delivery (0x00)
    Unicast,
    /// Indirect delivery via the binding table (0x01)
    Indirect,
    /// Broadcast delivery (0x02)
    Broadcast,
    /// Group (multicast) delivery (0x03)
    Group,
}

impl ApsDeliveryMode {
    /// Wire code of the delivery mode.
    pub open spec fn spec_code(self) -> u8 {
        match self {
            ApsDeliveryMode::Unicast => 0x00,
            ApsDeliveryMode::Indirect => 0x01,
            ApsDeliveryMode::Broadcast => 0x02,
            ApsDeliveryMode::Group => 0x03,
        }
    }

    /// Wire code of the delivery mode.
    pub fn code(&self) -> (r: u8)
        ensures
            r == self.spec_code(),
    {
        match self {
            ApsDeliveryMode::Unicast => 0x00,
            ApsDeliveryMode::Indirect => 0x01,
            ApsDeliveryMode::Broadcast => 0x02,
            ApsDeliveryMode::Group => 0x03,
        }
    }

    /// Decode a delivery mode from its 2-bit code.
    pub fn from_u8(v: u8) -> (r: Option<Self>)
        ensures
            r is Some <==> v <= 0x03,
            r matches Some(m) ==> m.spec_code() == v,
    {
        match v {
            0x00 => Some(Self::Unicast),
            0x01 => Some(Self::Indirect),
            0x02 => Some(Self::Broadcast),
            0x03 => Some(Self::Group),
            _ => None,
        }
    }
}

// ── Frame control ───────────────────────────────────────────────

/// APS frame control field (one byte).
#[derive(Debug, Clone, Copy, Default)]
pub struct ApsFrameControl {
    pub frame_type: u8,
    pub delivery_mode: u8,
    pub ack_format: bool,
    pub security: bool,
    pub ack_request: bool,
    pub extended_header: bool,
}

/// Value of bit `k` of a byte mask, as a byte with only that bit.
pub open spec fn flag_bit(set: bool, bit: u8) -> u8 {
    if set { bit } else { 0 }
}

impl ApsFrameControl {
    /// The fields of a frame-control byte.
    pub open spec fn spec_parse(raw: u8) -> ApsFrameControl {
        ApsFrameControl {
            frame_type: raw & 0x03,
            delivery_mode: (raw >> 2) & 0x03,
            ack_format: (raw >> 4) & 1 != 0,
            security: (raw >> 5) & 1 != 0,
            ack_request: (raw >> 6) & 1 != 0,
            extended_header: (raw >> 7) & 1 != 0,
        }
    }

    /// The byte encoding these fields (only the low two bits of the
    /// frame type and of the delivery mode are kept).
    pub open spec fn spec_serialize(self) -> u8 {
        (self.frame_type & 0x03) | ((self.delivery_mode & 0x03) << 2) | flag_bit(self.ack_format, 0x10)
            | flag_bit(self.security, 0x20) | flag_bit(self.ack_request, 0x40) | flag_bit(
            self.extended_header,
            0x80,
        )
    }

    /// Both two-bit fields hold values that fit in their bits.
    pub open spec fn wf(self) -> bool {
        self.frame_type <= 0x03 && self.delivery_mode <= 0x03
    }

    /// Parse from a single byte.
    pub fn parse(raw: u8) -> (r: Self)
        ensures
            r == Self::spec_parse(raw),
            r.wf(),
    {
        assert((raw & 0x03) <= 0x03 && ((raw >> 2) & 0x03) <= 0x03) by (bit_vector);
        Self {
            frame_type: raw & 0x03,
            delivery_mode: (raw >> 2) & 0x03,
            ack_format: (raw >> 4) & 1 != 0,
            security: (raw >> 5) & 1 != 0,
            ack_request: (raw >> 6) & 1 != 0,
            extended_header: (raw >> 7) & 1 != 0,
        }
    }

    /// Serialize to a single byte.
    pub fn serialize(&self) -> (r: u8)
        ensures
            r == self.spec_serialize(),
    {
        let af: u8 = if self.ack_format { 0x10 } else { 0 };
        let sec: u8 = if self.security { 0x20 } else { 0 };
        let ar: u8 = if self.ack_request { 0x40 } else { 0 };
        let eh: u8 = if self.extended_header { 0x80 } else { 0 };
        (self.frame_type & 0x03) | ((self.delivery_mode & 0x03) << 2) | af | sec | ar | eh
    }

    // ── Which header fields the frame control calls for ──

    /// A destination endpoint follows: unicast or broadcast data and ack frames.
    pub open spec fn has_dst_endpoint(self) -> bool {
        (self.frame_type == 0x00 || self.frame_type == 0x02) && (self.delivery_mode == 0x00
            || self.delivery_mode == 0x02)
    }

    /// A group address follows: group delivery.
    pub open spec fn has_group_address(self) -> bool {
        self.delivery_mode == 0x03
    }

    /// Cluster and profile identifiers follow: data and ack frames.
    pub open spec fn has_cluster_and_profile(self) -> bool {
        self.frame_type == 0x00 || self.frame_type == 0x02
    }

    /// A source endpoint follows: every frame type but inter-PAN.
    pub open spec fn has_src_endpoint(self) -> bool {
        self.frame_type != 0x03
    }

    /// Offset of the group address.
    pub open spec fn group_offset(self) -> int {
        1 + if self.has_dst_endpoint() { 1int } else { 0int }
    }

    /// Offset of the cluster identifier.
    pub open spec fn cluster_offset(self) -> int {
        self.group_offset() + if self.has_group_address() { 2int } else { 0int }
    }

    /// Offset of the source endpoint.
    pub open spec fn src_offset(self) -> int {
        self.cluster_offset() + if self.has_cluster_and_profile() { 4int } else { 0int }
    }

    /// Offset of the APS counter, the last byte of the fixed header.
    pub open spec fn counter_offset(self) -> int {
        self.src_offset() + if self.has_src_endpoint() { 1int } else { 0int }
    }
}

/// Parsing the byte that a frame control serializes to gives it back.
pub proof fn lemma_frame_control_serialize_parse(fc: ApsFrameControl)
    requires
        fc.wf(),
    ensures
        ApsFrameControl::spec_parse(fc.spec_serialize()) == fc,
{
    let ft = fc.frame_type;
    let dm = fc.delivery_mode;
    let af = flag_bit(fc.ack_format, 0x10);
    let sec = flag_bit(fc.security, 0x20);
    let ar = flag_bit(fc.ack_request, 0x40);
    let eh = flag_bit(fc.extended_header, 0x80);
    let b = fc.spec_serialize();
    assert(b == (ft & 0x03) | ((dm & 0x03) << 2) | af | sec | ar | eh);
    assert(ft <= 3 && dm <= 3 && (af == 0 || af == 0x10) && (sec == 0 || sec == 0x20) && (ar == 0
        || ar == 0x40) && (eh == 0 || eh == 0x80) && b == (ft & 0x03) | ((dm & 0x03) << 2) | af
        | sec | ar | eh ==> {
        &&& b & 0x03 == ft
        &&& (b >> 2) & 0x03 == dm
        &&& ((b >> 4) & 1 != 0) == (af == 0x10)
        &&& ((b >> 5) & 1 != 0) == (sec == 0x20)
        &&& ((b >> 6) & 1 != 0) == (ar == 0x40)
        &&& ((b >> 7) & 1 != 0) == (eh == 0x80)
    }) by (bit_vector);
}

/// Serializing the fields parsed from a byte gives the byte back.
pub proof fn lemma_frame_control_parse_serialize(raw: u8)
    ensures
        ApsFrameControl::spec_parse(raw).spec_serialize() == raw,
{
    let fc = ApsFrameControl::spec_parse(raw);
    let af = flag_bit(fc.ack_format, 0x10);
    let sec = flag_bit(fc.security, 0x20);
    let ar = flag_bit(fc.ack_request, 0x40);
    let eh = flag_bit(fc.extended_header, 0x80);
    assert(af == if (raw >> 4) & 1 != 0 { 0x10u8 } else { 0u8 });
    assert(sec == if (raw >> 5) & 1 != 0 { 0x20u8 } else { 0u8 });
    assert(ar == if (raw >> 6) & 1 != 0 { 0x40u8 } else { 0u8 });
    assert(eh == if (raw >> 7) & 1 != 0 { 0x80u8 } else { 0u8 });
    assert(((raw & 0x03) & 0x03) | ((((raw >> 2) & 0x03) & 0x03) << 2) | (if (raw >> 4) & 1
        != 0 { 0x10u8 } else { 0u8 }) | (if (raw >> 5) & 1 != 0 { 0x20u8 } else { 0u8 }) | (if (raw
        >> 6) & 1 != 0 { 0x40u8 } else { 0u8 }) | (if (raw >> 7) & 1 != 0 { 0x80u8 } else { 0u8 })
        == raw) by (bit_vector);
}

// ── Extended header ─────────────────────────────────────────────

/// APS extended header sub-frame, used for fragmentation.
#[derive(Debug, Clone, Copy, Default)]
pub struct ApsExtendedHeader {
    /// Fragmentation (0 = none, 1 = first fragment, 2 = subsequent)
    pub fragmentation: u8,
    /// Block number, present when fragmentation != 0
    pub block_number: u8,
    /// Ack bitfield, present for the first fragment
    pub ack_bitfield: Option<u8>,
}

/// Fragmentation sub-field values
pub const FRAG_NONE: u8 = 0x00;
pub const FRAG_FIRST: u8 = 0x01;
pub const FRAG_SUBSEQUENT: u8 = 0x02;

// ── APS header ──────────────────────────────────────────────────

/// Complete APS header.
#[derive(Debug, Clone, Default)]
pub struct ApsHeader {
    pub frame_control: ApsFrameControl,
    /// Destination endpoint (0x00 = ZDO, 0x01-0xF0 = app, 0xFF = broadcast)
    pub dst_endpoint: Option<u8>,
    /// Group address (group delivery mode)
    pub group_address: Option<u16>,
    /// Cluster identifier
    pub cluster_id: Option<u16>,
    /// Profile identifier
    pub profile_id: Option<u16>,
    /// Source endpoint
    pub src_endpoint: Option<u8>,
    /// APS counter (sequence number)
    pub aps_counter: u8,
    /// Extended header (fragmentation)
    pub extended_header: Option<ApsExtendedHeader>,
}

/// The little-endian `u16` at `i` in `data`.
pub open spec fn le16_at(data: Seq<u8>, i: int) -> u16 {
    spec_le_u16(data[i], data[i + 1])
}

/// The extended header starting at `at`, and the offset just past it.
pub open spec fn spec_parse_extended(data: Seq<u8>, at: int) -> Option<(ApsExtendedHeader, int)> {
    if data.len() <= at {
        None
    } else {
        let fragmentation = data[at] & 0x03;
        if fragmentation == FRAG_NONE {
            Some((ApsExtendedHeader { fragmentation, block_number: 0, ack_bitfield: None }, at + 1))
        } else if data.len() <= at + 1 {
            None
        } else if fragmentation == FRAG_FIRST && data.len() > at + 2 {
            Some(
                (
                    ApsExtendedHeader {
                        fragmentation,
                        block_number: data[at + 1],
                        ack_bitfield: Some(data[at + 2]),
                    },
                    at + 3,
                ),
            )
        } else {
            Some(
                (
                    ApsExtendedHeader { fragmentation, block_number: data[at + 1], ack_bitfield: None },
                    at + 2,
                ),
            )
        }
    }
}

/// The header fields up to and including the APS counter, when `data`
/// holds them, with the given extended header.
pub open spec fn spec_fixed_header(
    data: Seq<u8>,
    fc: ApsFrameControl,
    ext: Option<ApsExtendedHeader>,
) -> ApsHeader {
    ApsHeader {
        frame_control: fc,
        dst_endpoint: if fc.has_dst_endpoint() { Some(data[1]) } else { None },
        group_address: if fc.has_group_address() { Some(le16_at(data, fc.group_offset())) } else { None },
        cluster_id: if fc.has_cluster_and_profile() { Some(le16_at(data, fc.cluster_offset())) } else { None },
        profile_id: if fc.has_cluster_and_profile() { Some(le16_at(data, fc.cluster_offset() + 2)) } else { None },
        src_endpoint: if fc.has_src_endpoint() { Some(data[fc.src_offset()]) } else { None },
        aps_counter: data[fc.counter_offset()],
        extended_header: ext,
    }
}

/// One byte, or nothing.
pub open spec fn opt_byte(o: Option<u8>) -> Seq<u8> {
    match o {
        Some(b) => seq![b],
        None => Seq::<u8>::empty(),
    }
}

/// Two little-endian bytes, or nothing.
pub open spec fn opt_le16(o: Option<u16>) -> Seq<u8> {
    match o {
        Some(v) => seq![spec_lo(v), spec_hi(v)],
        None => Seq::<u8>::empty(),
    }
}

/// Encoding of an (optional) extended header.
pub open spec fn extended_bytes(o: Option<ApsExtendedHeader>) -> Seq<u8> {
    match o {
        Some(e) => seq![e.fragmentation & 0x03] + if e.fragmentation != FRAG_NONE {
            seq![e.block_number] + opt_byte(e.ack_bitfield)
        } else {
            Seq::<u8>::empty()
        },
        None => Seq::<u8>::empty(),
    }
}

/// Write one byte at `offset` of a buffer whose first `offset` bytes hold
/// `prefix` and whose remaining bytes are those of `orig`.
fn put_byte(buf: &mut [u8], offset: usize, b: u8, Ghost(orig): Ghost<Seq<u8>>, Ghost(prefix): Ghost<Seq<u8>>) -> (r: usize)
    requires
        offset < old(buf)@.len(),
        old(buf)@.len() == orig.len(),
        prefix.len() == offset,
        old(buf)@.subrange(0, offset as int) == prefix,
        old(buf)@.subrange(offset as int, orig.len() as int) == orig.subrange(offset as int, orig.len() as int),
    ensures
        r == offset + 1,
        final(buf)@.len() == orig.len(),
        final(buf)@.subrange(0, r as int) == prefix.push(b),
        final(buf)@.subrange(r as int, orig.len() as int) == orig.subrange(r as int, orig.len() as int),
{
    let ghost before = buf@;
    buf[offset] = b;
    assert(buf@.subrange(0, offset + 1) =~= prefix.push(b)) by {
        assert forall|i: int| 0 <= i < offset implies buf@[i] == prefix[i] by {
            assert(before.subrange(0, offset as int)[i] == before[i]);
        }
    }
    assert(buf@.subrange(offset + 1, orig.len() as int) =~= orig.subrange(offset + 1, orig.len() as int)) by {
        assert forall|i: int| offset + 1 <= i < orig.len() implies buf@[i] == orig[i] by {
            assert(before.subrange(offset as int, orig.len() as int)[i - offset] == before[i]);
        }
    }
    offset + 1
}

/// Write a little-endian `u16` at `offset`, as `put_byte` does for one byte.
fn put_le16(buf: &mut [u8], offset: usize, v: u16, Ghost(orig): Ghost<Seq<u8>>, Ghost(prefix): Ghost<Seq<u8>>) -> (r: usize)
    requires
        offset + 1 < old(buf)@.len(),
        old(buf)@.len() == orig.len(),
        prefix.len() == offset,
        old(buf)@.subrange(0, offset as int) == prefix,
        old(buf)@.subrange(offset as int, orig.len() as int) == orig.subrange(offset as int, orig.len() as int),
    ensures
        r == offset + 2,
        final(buf)@.len() == orig.len(),
        final(buf)@.subrange(0, r as int) == prefix + opt_le16(Some(v)),
        final(buf)@.subrange(r as int, orig.len() as int) == orig.subrange(r as int, orig.len() as int),
{
    let (lo, hi) = u16_le_bytes(v);
    let o1 = put_byte(buf, offset, lo, Ghost(orig), Ghost(prefix));
    let o2 = put_byte(buf, o1, hi, Ghost(orig), Ghost(prefix.push(lo)));
    assert(prefix.push(lo).push(hi) =~= prefix + opt_le16(Some(v)));
    o2
}

impl ApsExtendedHeader {
    /// The sub-frame as parsing produces it: the fragmentation fits in two
    /// bits, an unfragmented frame carries no block number, and only a
    /// first fragment can carry an ack bitfield.
    pub open spec fn wf(self) -> bool {
        &&& self.fragmentation <= 0x03
        &&& self.fragmentation == FRAG_NONE ==> self.block_number == 0
        &&& self.fragmentation != FRAG_FIRST ==> self.ack_bitfield is None
    }
}

impl ApsHeader {
    /// The header, and the number of bytes it takes, at the start of `data`;
    /// `None` when `data` is too short for the fields its frame control calls for.
    pub open spec fn spec_parse(data: Seq<u8>) -> Option<(ApsHeader, int)> {
        if data.len() == 0 {
            None
        } else {
            let fc = ApsFrameControl::spec_parse(data[0]);
            let co = fc.counter_offset();
            if data.len() <= co {
                None
            } else if !fc.extended_header {
                Some((spec_fixed_header(data, fc, None), co + 1))
            } else {
                match spec_parse_extended(data, co + 1) {
                    Some((ext, end)) => Some((spec_fixed_header(data, fc, Some(ext)), end)),
                    None => None,
                }
            }
        }
    }

    /// The bytes that encode this header.
    pub open spec fn spec_serialize(self) -> Seq<u8> {
        seq![self.frame_control.spec_serialize()] + opt_byte(self.dst_endpoint) + opt_le16(
            self.group_address,
        ) + opt_le16(self.cluster_id) + opt_le16(self.profile_id) + opt_byte(self.src_endpoint)
            + seq![self.aps_counter] + extended_bytes(self.extended_header)
    }

    /// A header whose optional fields are present exactly where its frame
    /// control calls for them.
    pub open spec fn wf(self) -> bool {
        let fc = self.frame_control;
        &&& fc.wf()
        &&& self.dst_endpoint is Some <==> fc.has_dst_endpoint()
        &&& self.group_address is Some <==> fc.has_group_address()
        &&& self.cluster_id is Some <==> fc.has_cluster_and_profile()
        &&& self.profile_id is Some <==> fc.has_cluster_and_profile()
        &&& self.src_endpoint is Some <==> fc.has_src_endpoint()
        &&& self.extended_header is Some <==> fc.extended_header
        &&& self.extended_header matches Some(e) ==> e.wf()
    }

    /// Parse an APS header from raw bytes. Returns (header, bytes_consumed).
    pub fn parse(data: &[u8]) -> (r: Option<(Self, usize)>)
        ensures
            match r {
                Some((h, n)) => Self::spec_parse(data@) == Some((h, n as int)),
                None => Self::spec_parse(data@) is None,
            },
            r matches Some((h, n)) ==> h.wf() && n <= data@.len(),
    {
        if data.len() == 0 {
            return None;
        }
        let fc = ApsFrameControl::parse(data[0]);
        let ghost d = data@;
        let mut offset: usize = 1;

        let frame_type = ApsFrameType::from_u8(fc.frame_type)?;
        let delivery_mode = ApsDeliveryMode::from_u8(fc.delivery_mode)?;

        // Destination endpoint: unicast/broadcast data and ack frames
        let dst_endpoint = match frame_type {
            ApsFrameType::Data | ApsFrameType::Ack => match delivery_mode {
                ApsDeliveryMode::Unicast | ApsDeliveryMode::Broadcast => {
                    if data.len() <= offset {
                        return None;
                    }
                    let ep = data[offset];
                    offset += 1;
                    Some(ep)
                },
                _ => None,
            },
            _ => None,
        };
        assert(offset == fc.group_offset());

        // Group address: group delivery mode
        let group_address = if delivery_mode == ApsDeliveryMode::Group {
            if data.len() < offset + 2 {
                return None;
            }
            let g = le_u16(data[offset], data[offset + 1]);
            offset += 2;
            Some(g)
        } else {
            None
        };
        assert(offset == fc.cluster_offset());

        // Cluster ID: data and ack frames
        let cluster_id = match frame_type {
            ApsFrameType::Data | ApsFrameType::Ack => {
                if data.len() < offset + 2 {
                    return None;
                }
                let c = le_u16(data[offset], data[offset + 1]);
                offset += 2;
                Some(c)
            },
            _ => None,
        };

        // Profile ID: data and ack frames
        let profile_id = match frame_type {
            ApsFrameType::Data | ApsFrameType::Ack => {
                if data.len() < offset + 2 {
                    return None;
                }
                let p = le_u16(data[offset], data[offset + 1]);
                offset += 2;
                Some(p)
            },
            _ => None,
        };
        assert(offset == fc.src_offset());

        // Source endpoint: all frame types except inter-PAN
        let src_endpoint = match frame_type {
            ApsFrameType::Data | ApsFrameType::Ack | ApsFrameType::Command => {
                if data.len() <= offset {
                    return None;
                }
                let ep = data[offset];
                offset += 1;
                Some(ep)
            },
            ApsFrameType::InterPan => None,
        };
        assert(offset == fc.counter_offset());

        // APS counter: always present
        if data.len() <= offset {
            return None;
        }
        let aps_counter = data[offset];
        offset += 1;

        // Extended header (fragmentation)
        let extended_header = if fc.extended_header {
            if data.len() <= offset {
                return None;
            }
            let ext_fc = data[offset];
            offset += 1;
            let fragmentation = ext_fc & 0x03;
            assert(fragmentation <= 0x03) by (bit_vector)
                requires fragmentation == ext_fc & 0x03;
            let (block_number, ack_bitfield) = if fragmentation != FRAG_NONE {
                if data.len() <= offset {
                    return None;
                }
                let bn = data[offset];
                offset += 1;
                let abf = if fragmentation == FRAG_FIRST && data.len() > offset {
                    let a = data[offset];
                    offset += 1;
                    Some(a)
                } else {
                    None
                };
                (bn, abf)
            } else {
                (0, None)
            };
            Some(ApsExtendedHeader { fragmentation, block_number, ack_bitfield })
        } else {
            None
        };

        let h = Self {
            frame_control: fc,
            dst_endpoint,
            group_address,
            cluster_id,
            profile_id,
            src_endpoint,
            aps_counter,
            extended_header,
        };
        assert(h == spec_fixed_header(d, fc, extended_header));
        Some((h, offset))
    }

    /// Serialize the APS header into a buffer. Returns bytes written.
    #[verifier::spinoff_prover]
    #[verifier::rlimit(40)]
    pub fn serialize(&self, buf: &mut [u8]) -> (n: usize)
        requires
            old(buf)@.len() >= self.spec_serialize().len(),
        ensures
            n == self.spec_serialize().len(),
            final(buf)@.len() == old(buf)@.len(),
            final(buf)@.subrange(0, n as int) == self.spec_serialize(),
            final(buf)@.subrange(n as int, final(buf)@.len() as int) == old(buf)@.subrange(
                n as int,
                old(buf)@.len() as int,
            ),
    {
        let ghost orig = buf@;
        let ghost p1 = seq![self.frame_control.spec_serialize()];
        let ghost p2 = p1 + opt_byte(self.dst_endpoint);
        let ghost p3 = p2 + opt_le16(self.group_address);
        let ghost p4 = p3 + opt_le16(self.cluster_id);
        let ghost p5 = p4 + opt_le16(self.profile_id);
        let ghost p6 = p5 + opt_byte(self.src_endpoint);
        let ghost p7 = p6 + seq![self.aps_counter];
        assert(self.spec_serialize() == p7 + extended_bytes(self.extended_header));
        assert(orig.subrange(0, 0) =~= Seq::<u8>::empty());
        assert(orig.subrange(0, orig.len() as int) =~= orig);

        let mut offset: usize = 0;
        offset = put_byte(buf, offset, self.frame_control.serialize(), Ghost(orig), Ghost(Seq::empty()));
        assert(Seq::<u8>::empty().push(self.frame_control.spec_serialize()) =~= p1);

        if let Some(ep) = self.dst_endpoint {
            offset = put_byte(buf, offset, ep, Ghost(orig), Ghost(p1));
            assert(p1.push(ep) =~= p2);
        } else {
            assert(p1 =~= p2);
        }
        if let Some(g) = self.group_address {
            offset = put_le16(buf, offset, g, Ghost(orig), Ghost(p2));
        } else {
            assert(p2 =~= p3);
        }
        if let Some(c) = self.cluster_id {
            offset = put_le16(buf, offset, c, Ghost(orig), Ghost(p3));
        } else {
            assert(p3 =~= p4);
        }
        if let Some(p) = self.profile_id {
            offset = put_le16(buf, offset, p, Ghost(orig), Ghost(p4));
        } else {
            assert(p4 =~= p5);
        }
        if let Some(ep) = self.src_endpoint {
            offset = put_byte(buf, offset, ep, Ghost(orig), Ghost(p5));
            assert(p5.push(ep) =~= p6);
        } else {
            assert(p5 =~= p6);
        }
        offset = put_byte(buf, offset, self.aps_counter, Ghost(orig), Ghost(p6));
        assert(p6.push(self.aps_counter) =~= p7);

        if let Some(ref ext) = self.extended_header {
            let ghost q1 = p7.push(ext.fragmentation & 0x03);
            offset = put_byte(buf, offset, ext.fragmentation & 0x03, Ghost(orig), Ghost(p7));
            if ext.fragmentation != FRAG_NONE {
                let ghost q2 = q1.push(ext.block_number);
                offset = put_byte(buf, offset, ext.block_number, Ghost(orig), Ghost(q1));
                if let Some(abf) = ext.ack_bitfield {
                    offset = put_byte(buf, offset, abf, Ghost(orig), Ghost(q2));
                    assert(q2.push(abf) =~= self.spec_serialize());
                } else {
                    assert(q2 =~= self.spec_serialize());
                }
            } else {
                assert(q1 =~= self.spec_serialize());
            }
        } else {
            assert(p7 =~= self.spec_serialize());
        }
        offset
    }
}

/// The bytes of the header up to and including the APS counter.
pub open spec fn fixed_bytes(h: ApsHeader) -> Seq<u8> {
    seq![h.frame_control.spec_serialize()] + opt_byte(h.dst_endpoint) + opt_le16(h.group_address)
        + opt_le16(h.cluster_id) + opt_le16(h.profile_id) + opt_byte(h.src_endpoint) + seq![
        h.aps_counter,
    ]
}

/// The fixed part of a well-formed header sits at the offsets its frame
/// control names.
proof fn lemma_fixed_layout(h: ApsHeader, s: Seq<u8>)
    requires
        h.wf(),
        s.len() >= fixed_bytes(h).len(),
        s.subrange(0, fixed_bytes(h).len() as int) == fixed_bytes(h),
    ensures
        fixed_bytes(h).len() == h.frame_control.counter_offset() + 1,
        s[0] == h.frame_control.spec_serialize(),
        ApsFrameControl::spec_parse(s[0]) == h.frame_control,
        spec_fixed_header(s, h.frame_control, h.extended_header) == h,
{
    let fc = h.frame_control;
    let f = fixed_bytes(h);
    let a1 = seq![fc.spec_serialize()];
    let a2 = a1 + opt_byte(h.dst_endpoint);
    let a3 = a2 + opt_le16(h.group_address);
    let a4 = a3 + opt_le16(h.cluster_id);
    let a5 = a4 + opt_le16(h.profile_id);
    let a6 = a5 + opt_byte(h.src_endpoint);
    assert(f == a6 + seq![h.aps_counter]);
    assert(a2.len() == fc.group_offset());
    assert(a3.len() == fc.cluster_offset());
    assert(a4.len() == fc.cluster_offset() + if fc.has_cluster_and_profile() { 2int } else { 0int });
    assert(a5.len() == fc.src_offset());
    assert(a6.len() == fc.counter_offset());
    assert forall|i: int| 0 <= i < f.len() implies s[i] == f[i] by {
        assert(s.subrange(0, f.len() as int)[i] == s[i]);
    }
    assert(s[0] == a1[0]);
    if let Some(ep) = h.dst_endpoint {
        assert(s[1] == a2[1]);
    }
    if let Some(g) = h.group_address {
        let o = fc.group_offset();
        assert(s[o] == a3[o] && s[o + 1] == a3[o + 1]);
        lemma_le_u16_split(g);
    }
    if let Some(c) = h.cluster_id {
        let o = fc.cluster_offset();
        assert(s[o] == a4[o] && s[o + 1] == a4[o + 1]);
        lemma_le_u16_split(c);
    }
    if let Some(p) = h.profile_id {
        let o = fc.cluster_offset() + 2;
        assert(s[o] == a5[o] && s[o + 1] == a5[o + 1]);
        lemma_le_u16_split(p);
    }
    if let Some(ep) = h.src_endpoint {
        assert(s[fc.src_offset()] == a6[fc.src_offset()]);
    }
    assert(s[fc.counter_offset()] == f[fc.counter_offset()]);
    lemma_frame_control_serialize_parse(fc);
}

/// A header without extended header is read from the wire layout of its
/// frame-control byte: frame type in bits 0-1, delivery mode in bits 2-3,
/// ack format, security, ack request and extended header in bits 4 to 7;
/// then the destination endpoint (data and ack frames with unicast or
/// broadcast delivery), the group address (group delivery), the cluster and
/// profile identifiers (data and ack frames), the source endpoint (all but
/// inter-PAN frames), each 16-bit field little-endian, and the APS counter.
/// A buffer that ends before the counter holds no header.
pub proof fn law_aps_header_layout(data: Seq<u8>)
    requires
        data.len() >= 1,
        (data[0] >> 7) & 1 == 0,
    ensures
        ({
            let b = data[0];
            let ft = b & 3;
            let dm = (b >> 2) & 3;
            let dst = (ft == 0 || ft == 2) && (dm == 0 || dm == 2);
            let cp = ft == 0 || ft == 2;
            let o_g: int = if dst { 2 } else { 1 };
            let o_c: int = o_g + if dm == 3 { 2int } else { 0int };
            let o_s: int = o_c + if cp { 4int } else { 0int };
            let o_n: int = o_s + if ft != 3 { 1int } else { 0int };
            if data.len() <= o_n {
                ApsHeader::spec_parse(data) is None
            } else {
                ApsHeader::spec_parse(data) matches Some((h, len)) && {
                    &&& len == o_n + 1
                    &&& h.frame_control.frame_type == ft
                    &&& h.frame_control.delivery_mode == dm
                    &&& h.frame_control.ack_format == ((b >> 4) & 1 == 1)
                    &&& h.frame_control.security == ((b >> 5) & 1 == 1)
                    &&& h.frame_control.ack_request == ((b >> 6) & 1 == 1)
                    &&& !h.frame_control.extended_header
                    &&& h.dst_endpoint == if dst { Some(data[1]) } else { None }
                    &&& h.group_address == if dm == 3 {
                        Some((data[o_g] + 256 * data[o_g + 1]) as u16)
                    } else {
                        None
                    }
                    &&& h.cluster_id == if cp { Some((data[o_c] + 256 * data[o_c + 1]) as u16) } else { None }
                    &&& h.profile_id == if cp { Some((data[o_c + 2] + 256 * data[o_c + 3]) as u16) } else { None }
                    &&& h.src_endpoint == if ft != 3 { Some(data[o_s]) } else { None }
                    &&& h.aps_counter == data[o_n]
                    &&& h.extended_header is None
                }
            }
        }),
{
    let b = data[0];
    assert((b & 3) <= 3 && ((b >> 2) & 3) <= 3) by (bit_vector);
    assert(((b >> 4) & 1 != 0) == ((b >> 4) & 1 == 1)) by (bit_vector);
    assert(((b >> 5) & 1 != 0) == ((b >> 5) & 1 == 1)) by (bit_vector);
    assert(((b >> 6) & 1 != 0) == ((b >> 6) & 1 == 1)) by (bit_vector);
}

/// Parsing the encoding of a well-formed header, followed by any payload,
/// gives the header back together with its encoded length. The one
/// exception is a first fragment without an ack bitfield followed by more
/// bytes: the first payload byte is then read as its ack bitfield.
pub proof fn lemma_header_serialize_parse(h: ApsHeader, rest: Seq<u8>)
    requires
        h.wf(),
        rest.len() > 0 ==> !(h.extended_header matches Some(e) && e.fragmentation == FRAG_FIRST
            && e.ack_bitfield is None),
    ensures
        ApsHeader::spec_parse(h.spec_serialize() + rest) == Some((h, h.spec_serialize().len() as int)),
{
    let fc = h.frame_control;
    let f = fixed_bytes(h);
    let s = h.spec_serialize() + rest;
    assert(h.spec_serialize() == f + extended_bytes(h.extended_header));
    assert(s.subrange(0, f.len() as int) =~= f);
    lemma_fixed_layout(h, s);
    let co = fc.counter_offset();
    assert(ApsFrameControl::spec_parse(s[0]) == fc);
    if let Some(e) = h.extended_header {
        let eb = extended_bytes(h.extended_header);
        assert(s[co + 1] == eb[0]);
        let fr = e.fragmentation;
        assert((fr & 0x03) == fr) by (bit_vector)
            requires fr <= 0x03;
        if e.fragmentation != FRAG_NONE {
            assert(s[co + 2] == eb[1]);
            if let Some(a) = e.ack_bitfield {
                assert(s[co + 3] == eb[2]);
            }
        }
    }
}

/// Serializing a parsed header reproduces the bytes it was parsed from,
/// provided the extended frame-control byte (when there is one) has no bits
/// set above the fragmentation field.
pub proof fn lemma_header_parse_serialize(data: Seq<u8>)
    requires
        ApsHeader::spec_parse(data) is Some,
        ApsHeader::spec_parse(data).unwrap().0.frame_control.extended_header ==> data[ApsHeader::spec_parse(
            data,
        ).unwrap().0.frame_control.counter_offset() + 1] <= 0x03,
    ensures
        ({
            let (h, n) = ApsHeader::spec_parse(data).unwrap();
            h.spec_serialize() == data.subrange(0, n)
        }),
{
    let (h, n) = ApsHeader::spec_parse(data).unwrap();
    let fc = h.frame_control;
    let co = fc.counter_offset();
    lemma_frame_control_parse_serialize(data[0]);
    let f = fixed_bytes(h);
    assert(f.len() == co + 1);
    assert forall|i: int| 0 <= i < f.len() implies f[i] == data[i] by {
        let a1 = seq![fc.spec_serialize()];
        let a2 = a1 + opt_byte(h.dst_endpoint);
        let a3 = a2 + opt_le16(h.group_address);
        let a4 = a3 + opt_le16(h.cluster_id);
        let a5 = a4 + opt_le16(h.profile_id);
        let a6 = a5 + opt_byte(h.src_endpoint);
        assert(f == a6 + seq![h.aps_counter]);
        if let Some(g) = h.group_address {
            lemma_le_u16_join(data[fc.group_offset()], data[fc.group_offset() + 1]);
        }
        if let Some(c) = h.cluster_id {
            lemma_le_u16_join(data[fc.cluster_offset()], data[fc.cluster_offset() + 1]);
        }
        if let Some(p) = h.profile_id {
            lemma_le_u16_join(data[fc.cluster_offset() + 2], data[fc.cluster_offset() + 3]);
        }
    }
    if let Some(e) = h.extended_header {
        let b = data[co + 1];
        assert(b <= 0x03 ==> (b & 0x03) & 0x03 == b) by (bit_vector);
        assert(h.spec_serialize() =~= data.subrange(0, n));
    } else {
        assert(h.spec_serialize() =~= data.subrange(0, n));
    }
}

// ── APS command identifiers ─────────────────────────────────────

/// APS command identifiers (carried in APS command frames).
#[derive(Debug, Clone, Copy, PartialEq, Eq, Structural)]
pub enum ApsCommandId {
    /// 0x05
    TransportKey,
    /// 0x06
    UpdateDevice,
    /// 0x07
    RemoveDevice,
    /// 0x08
    RequestKey,
    /// 0x09
    SwitchKey,
    /// Tunnel command, for transporting frames across the network (0x0E)
    Tunnel,
    /// 0x0F
    VerifyKey,
    /// 0x10
    ConfirmKey,
}

impl ApsCommandId {
    /// Wire code of the command.
    pub open spec fn spec_code(self) -> u8 {
        match self {
            ApsCommandId::TransportKey => 0x05,
            ApsCommandId::UpdateDevice => 0x06,
            ApsCommandId::RemoveDevice => 0x07,
            ApsCommandId::RequestKey => 0x08,
            ApsCommandId::SwitchKey => 0x09,
            ApsCommandId::Tunnel => 0x0E,
            ApsCommandId::VerifyKey => 0x0F,
            ApsCommandId::ConfirmKey => 0x10,
        }
    }

    /// Wire code of the command.
    pub fn code(&self) -> (r: u8)
        ensures
            r == self.spec_code(),
    {
        match self {
            ApsCommandId::TransportKey => 0x05,
            ApsCommandId::UpdateDevice => 0x06,
            ApsCommandId::RemoveDevice => 0x07,
            ApsCommandId::RequestKey => 0x08,
            ApsCommandId::SwitchKey => 0x09,
            ApsCommandId::Tunnel => 0x0E,
            ApsCommandId::VerifyKey => 0x0F,
            ApsCommandId::ConfirmKey => 0x10,
        }
    }

    /// Decode a command identifier.
    pub fn from_u8(v: u8) -> (r: Option<Self>)
        ensures
            r is Some <==> (0x05 <= v <= 0x09 || 0x0E <= v <= 0x10),
            r matches Some(c) ==> c.spec_code() == v,
    {
        match v {
            0x05 => Some(Self::TransportKey),
            0x06 => Some(Self::UpdateDevice),
            0x07 => Some(Self::RemoveDevice),
            0x08 => Some(Self::RequestKey),
            0x09 => Some(Self::SwitchKey),
            0x0E => Some(Self::Tunnel),
            0x0F => Some(Self::VerifyKey),
            0x10 => Some(Self::ConfirmKey),
            _ => None,
        }
    }
}

} // verus!
