//! ZCL frame parsing and serialization.
//!
//! A ZCL frame consists of a header (frame control, optional manufacturer code,
//! sequence number, command ID) followed by a variable-length payload.

use vstd::prelude::*;
use crate::types::{ClusterDirection, CommandId, le_u16, u16_le_bytes, spec_le_u16, spec_lo, spec_hi};
use crate::hvec::{u8x128_items, u8x128_new, u8x128_push, u8x128_as_slice, u8x128_clone};

verus! {

/// ZCL frame type encoded in bits 0–1 of frame control.
#[derive(Debug, Clone, Copy, PartialEq, Eq, Structural)]
pub enum ZclFrameType {
    /// Global (foundation) command (0x00).
    Global,
    /// Cluster-specific command (0x01).
    ClusterSpecific,
}

impl ZclFrameType {
    /// Wire code of the frame type.
    pub open spec fn spec_code(self) -> u8 {
        match self {
            ZclFrameType::Global => 0x00,
            ZclFrameType::ClusterSpecific => 0x01,
        }
    }

    /// Wire code of the frame type.
    pub fn code(&self) -> (r: u8)
        ensures
            r == self.spec_code(),
    {
        match self {
            ZclFrameType::Global => 0x00,
            ZclFrameType::ClusterSpecific => 0x01,
        }
    }

    /// Decode the frame type from the low two bits of `val`; the codes 2 and
    /// 3 are reserved.
    pub fn from_u8(val: u8) -> (r: Option<Self>)
        ensures
            r is Some <==> (val & 0x03) <= 0x01,
            r matches Some(t) ==> t.spec_code() == (val & 0x03),
    {
        match val & 0x03 {
            0x00 => Some(Self::Global),
            0x01 => Some(Self::ClusterSpecific),
            _ => None,
        }
    }
}

/// Frame-control bit: manufacturer-specific (manufacturer code present).
pub const FC_MANUFACTURER_SPECIFIC: u8 = 0x04;

/// Frame-control bit: direction (set = server to client).
pub const FC_DIRECTION: u8 = 0x08;

/// Frame-control bit: disable default response.
pub const FC_DISABLE_DEFAULT_RESPONSE: u8 = 0x10;

/// Parsed ZCL frame header.
#[derive(Debug, Clone)]
pub struct ZclFrameHeader {
    /// Raw frame control byte.
    pub frame_control: u8,
    /// Optional manufacturer code (present when bit 2 of frame_control is set).
    pub manufacturer_code: Option<u16>,
    /// Transaction sequence number.
    pub seq_number: u8,
    /// Command identifier.
    pub command_id: CommandId,
}

/// The frame-control byte assembled from its components.
pub open spec fn spec_build_frame_control(
    frame_type: ZclFrameType,
    manufacturer_specific: bool,
    direction: ClusterDirection,
    disable_default_response: bool,
) -> u8 {
    frame_type.spec_code() | (if manufacturer_specific { FC_MANUFACTURER_SPECIFIC } else { 0 }) | (
    if direction == ClusterDirection::ServerToClient { FC_DIRECTION } else { 0 }) | (
    if disable_default_response { FC_DISABLE_DEFAULT_RESPONSE } else { 0 })
}

impl ZclFrameHeader {
    /// Frame type of a frame-control byte: cluster-specific when its low
    /// bits read 1, global otherwise (reserved codes read as global).
    pub open spec fn spec_frame_type(frame_control: u8) -> ZclFrameType {
        if frame_control & 0x03 == 0x01 {
            ZclFrameType::ClusterSpecific
        } else {
            ZclFrameType::Global
        }
    }

    /// Frame type (global vs. cluster-specific).
    pub fn frame_type(&self) -> (r: ZclFrameType)
        ensures
            r == Self::spec_frame_type(self.frame_control),
    {
        let fc = self.frame_control;
        assert((fc & 0x03) & 0x03 == fc & 0x03) by (bit_vector);
        match ZclFrameType::from_u8(self.frame_control & 0x03) {
            Some(t) => t,
            None => ZclFrameType::Global,
        }
    }

    /// Whether the manufacturer code field is present.
    pub fn is_manufacturer_specific(&self) -> (r: bool)
        ensures
            r == (self.frame_control & FC_MANUFACTURER_SPECIFIC != 0),
    {
        self.frame_control & FC_MANUFACTURER_SPECIFIC != 0
    }

    /// Command direction.
    pub fn direction(&self) -> (r: ClusterDirection)
        ensures
            r == (if self.frame_control & FC_DIRECTION != 0 {
                ClusterDirection::ServerToClient
            } else {
                ClusterDirection::ClientToServer
            }),
    {
        if self.frame_control & FC_DIRECTION != 0 {
            ClusterDirection::ServerToClient
        } else {
            ClusterDirection::ClientToServer
        }
    }

    /// Whether the default response is disabled.
    pub fn disable_default_response(&self) -> (r: bool)
        ensures
            r == (self.frame_control & FC_DISABLE_DEFAULT_RESPONSE != 0),
    {
        self.frame_control & FC_DISABLE_DEFAULT_RESPONSE != 0
    }

    /// Build a new frame-control byte from its components.
    pub fn build_frame_control(
        frame_type: ZclFrameType,
        manufacturer_specific: bool,
        direction: ClusterDirection,
        disable_default_response: bool,
    ) -> (r: u8)
        ensures
            r == spec_build_frame_control(
                frame_type,
                manufacturer_specific,
                direction,
                disable_default_response,
            ),
    {
        let ms: u8 = if manufacturer_specific { FC_MANUFACTURER_SPECIFIC } else { 0 };
        let dir: u8 = if matches!(direction, ClusterDirection::ServerToClient) {
            FC_DIRECTION
        } else {
            0
        };
        let ddr: u8 = if disable_default_response { FC_DISABLE_DEFAULT_RESPONSE } else { 0 };
        frame_type.code() | ms | dir | ddr
    }
}

/// Each accessor of a header reads back the component that
/// `build_frame_control` put in its frame-control byte.
pub proof fn lemma_frame_control_components(
    frame_type: ZclFrameType,
    manufacturer_specific: bool,
    direction: ClusterDirection,
    disable_default_response: bool,
)
    ensures
        ({
            let fc = spec_build_frame_control(
                frame_type,
                manufacturer_specific,
                direction,
                disable_default_response,
            );
            &&& ZclFrameHeader::spec_frame_type(fc) == frame_type
            &&& (fc & FC_MANUFACTURER_SPECIFIC != 0) == manufacturer_specific
            &&& (fc & FC_DIRECTION != 0) == (direction == ClusterDirection::ServerToClient)
            &&& (fc & FC_DISABLE_DEFAULT_RESPONSE != 0) == disable_default_response
        }),
{
    let t = frame_type.spec_code();
    let ms: u8 = if manufacturer_specific { 0x04 } else { 0 };
    let dir: u8 = if direction == ClusterDirection::ServerToClient { 0x08 } else { 0 };
    let ddr: u8 = if disable_default_response { 0x10 } else { 0 };
    let fc = t | ms | dir | ddr;
    assert(t <= 1 && (ms == 0 || ms == 4) && (dir == 0 || dir == 8) && (ddr == 0 || ddr == 0x10)
        && fc == t | ms | dir | ddr ==> fc & 0x03 == t && (fc & 0x04 != 0) == (ms == 4) && (fc
        & 0x08 != 0) == (dir == 8) && (fc & 0x10 != 0) == (ddr == 0x10)) by (bit_vector);
}

/// Maximum ZCL payload size (conservative for Zigbee frames).
pub const MAX_ZCL_PAYLOAD: usize = 128;

/// A parsed ZCL frame.
#[derive(Debug)]
pub struct ZclFrame {
    pub header: ZclFrameHeader,
    /// Payload bytes (excluding the header).
    pub payload: heapless::Vec<u8, 128>,
}

/// Errors that may occur during ZCL frame parsing.
#[derive(Debug, Clone, Copy, PartialEq, Eq, Structural)]
pub enum ZclFrameError {
    /// Buffer too short to contain a valid ZCL header.
    TooShort,
    /// Payload exceeds maximum buffer size.
    PayloadTooLarge,
    /// Invalid frame type bits.
    InvalidFrameType,
}

/// Two little-endian bytes, or nothing.
pub open spec fn opt_le16_bytes(o: Option<u16>) -> Seq<u8> {
    match o {
        Some(v) => seq![spec_lo(v), spec_hi(v)],
        None => Seq::<u8>::empty(),
    }
}

/// The bytes of a ZCL header.
pub open spec fn spec_header_bytes(h: ZclFrameHeader) -> Seq<u8> {
    seq![h.frame_control] + opt_le16_bytes(h.manufacturer_code) + seq![h.seq_number, h.command_id.0]
}

/// The header and payload encoded in `data`, or the error parsing reports.
pub open spec fn spec_parse_frame(data: Seq<u8>) -> Result<(ZclFrameHeader, Seq<u8>), ZclFrameError> {
    if data.len() < 3 {
        Err(ZclFrameError::TooShort)
    } else if data[0] & 0x03 >= 2 {
        Err(ZclFrameError::InvalidFrameType)
    } else {
        let fc = data[0];
        let ms = fc & FC_MANUFACTURER_SPECIFIC != 0;
        let hl: int = if ms { 5 } else { 3 };
        if data.len() < hl {
            Err(ZclFrameError::TooShort)
        } else if data.len() - hl > MAX_ZCL_PAYLOAD {
            Err(ZclFrameError::PayloadTooLarge)
        } else {
            let seq_idx: int = if ms { 3 } else { 1 };
            Ok(
                (
                    ZclFrameHeader {
                        frame_control: fc,
                        manufacturer_code: if ms { Some(spec_le_u16(data[1], data[2])) } else { None },
                        seq_number: data[seq_idx],
                        command_id: CommandId(data[seq_idx + 1]),
                    },
                    data.subrange(hl, data.len() as int),
                ),
            )
        }
    }
}

impl Clone for ZclFrame {
    fn clone(&self) -> (r: Self)
        ensures
            r.header == self.header,
            u8x128_items(r.payload) == u8x128_items(self.payload),
    {
        ZclFrame {
            header: ZclFrameHeader {
                frame_control: self.header.frame_control,
                manufacturer_code: self.header.manufacturer_code,
                seq_number: self.header.seq_number,
                command_id: self.header.command_id,
            },
            payload: u8x128_clone(&self.payload),
        }
    }
}

impl ZclFrame {
    /// The header bytes followed by the payload.
    pub open spec fn spec_bytes(&self) -> Seq<u8> {
        spec_header_bytes(self.header) + u8x128_items(self.payload)
    }

    /// Parse a ZCL frame from a raw byte slice.
    pub fn parse(data: &[u8]) -> (r: Result<Self, ZclFrameError>)
        ensures
            match r {
                Ok(f) => spec_parse_frame(data@) == Ok::<(ZclFrameHeader, Seq<u8>), ZclFrameError>(
                    (f.header, u8x128_items(f.payload)),
                ),
                Err(e) => spec_parse_frame(data@) == Err::<(ZclFrameHeader, Seq<u8>), ZclFrameError>(e),
            },
    {
        if data.len() < 3 {
            return Err(ZclFrameError::TooShort);
        }
        if data[0] & 0x03 >= 2 {
            return Err(ZclFrameError::InvalidFrameType);
        }

        let frame_control = data[0];
        let manufacturer_specific = frame_control & FC_MANUFACTURER_SPECIFIC != 0;

        let min_header: usize = if manufacturer_specific { 5 } else { 3 };
        if data.len() < min_header {
            return Err(ZclFrameError::TooShort);
        }

        let (manufacturer_code, seq_idx) = if manufacturer_specific {
            let mfr = le_u16(data[1], data[2]);
            (Some(mfr), 3usize)
        } else {
            (None, 1usize)
        };

        let seq_number = data[seq_idx];
        let command_id = CommandId(data[seq_idx + 1]);

        let payload_start = seq_idx + 2;
        let n = data.len();
        let mut payload = u8x128_new();
        let mut i = payload_start;
        while i < n
            invariant
                payload_start <= i <= n,
                n == data@.len(),
                payload_start == min_header,
                min_header == (if data@[0] & FC_MANUFACTURER_SPECIFIC != 0 { 5int } else { 3int }),
                data@.len() >= 3,
                data@[0] & 0x03 < 2,
                i - payload_start <= MAX_ZCL_PAYLOAD,
                u8x128_items(payload) == data@.subrange(payload_start as int, i as int),
            decreases n - i,
        {
            if u8x128_push(&mut payload, data[i]).is_err() {
                assert(n - min_header > MAX_ZCL_PAYLOAD);
                return Err(ZclFrameError::PayloadTooLarge);
            }
            assert(data@.subrange(payload_start as int, i + 1) =~= data@.subrange(
                payload_start as int,
                i as int,
            ).push(data@[i as int]));
            i += 1;
        }

        Ok(
            Self {
                header: ZclFrameHeader { frame_control, manufacturer_code, seq_number, command_id },
                payload,
            },
        )
    }

    /// Serialize this frame into `buf`, returning the number of bytes written;
    /// `TooShort` when `buf` cannot hold the header and payload.
    pub fn serialize(&self, buf: &mut [u8]) -> (r: Result<usize, ZclFrameError>)
        ensures
            r is Ok <==> old(buf)@.len() >= self.spec_bytes().len(),
            r is Err ==> r == Err::<usize, ZclFrameError>(ZclFrameError::TooShort) && final(buf)@
                == old(buf)@,
            r matches Ok(n) ==> n == self.spec_bytes().len() && final(buf)@.len() == old(buf)@.len()
                && final(buf)@.subrange(0, n as int) == self.spec_bytes() && final(buf)@.subrange(
                n as int,
                final(buf)@.len() as int,
            ) == old(buf)@.subrange(n as int, old(buf)@.len() as int),
    {
        let payload = u8x128_as_slice(&self.payload);
        let header_len: usize = if self.header.manufacturer_code.is_some() { 5 } else { 3 };
        let total = header_len + payload.len();
        if buf.len() < total {
            return Err(ZclFrameError::TooShort);
        }
        let ghost orig = buf@;
        let ghost hb = spec_header_bytes(self.header);

        buf[0] = self.header.frame_control;
        let mut idx: usize = 1;

        if let Some(mfr) = self.header.manufacturer_code {
            let (lo, hi) = u16_le_bytes(mfr);
            buf[idx] = lo;
            buf[idx + 1] = hi;
            idx += 2;
        }

        buf[idx] = self.header.seq_number;
        buf[idx + 1] = self.header.command_id.0;
        idx += 2;
        assert(idx == hb.len());
        assert(buf@.subrange(0, idx as int) =~= hb);

        let mut j: usize = 0;
        while j < payload.len()
            invariant
                idx == hb.len(),
                idx + payload@.len() == total,
                total <= buf@.len(),
                buf@.len() == orig.len(),
                j <= payload@.len(),
                forall|k: int| 0 <= k < idx ==> buf@[k] == hb[k],
                forall|k: int| 0 <= k < j ==> buf@[idx + k] == payload@[k],
                forall|k: int| total <= k < orig.len() ==> buf@[k] == orig[k],
            decreases payload@.len() - j,
        {
            buf[idx + j] = payload[j];
            j += 1;
        }
        assert(buf@.subrange(0, total as int) =~= self.spec_bytes());
        assert(buf@.subrange(total as int, buf@.len() as int) =~= orig.subrange(total as int, orig.len() as int));
        Ok(total)
    }

    /// A global-command frame with an empty payload.
    pub fn new_global(
        seq: u8,
        command_id: CommandId,
        direction: ClusterDirection,
        disable_default_response: bool,
    ) -> (r: Self)
        ensures
            r.header.frame_control == spec_build_frame_control(
                ZclFrameType::Global,
                false,
                direction,
                disable_default_response,
            ),
            r.header.manufacturer_code is None,
            r.header.seq_number == seq,
            r.header.command_id == command_id,
            u8x128_items(r.payload) == Seq::<u8>::empty(),
    {
        Self {
            header: ZclFrameHeader {
                frame_control: ZclFrameHeader::build_frame_control(
                    ZclFrameType::Global,
                    false,
                    direction,
                    disable_default_response,
                ),
                manufacturer_code: None,
                seq_number: seq,
                command_id,
            },
            payload: u8x128_new(),
        }
    }

    /// A cluster-specific frame with an empty payload.
    pub fn new_cluster_specific(
        seq: u8,
        command_id: CommandId,
        direction: ClusterDirection,
        disable_default_response: bool,
    ) -> (r: Self)
        ensures
            r.header.frame_control == spec_build_frame_control(
                ZclFrameType::ClusterSpecific,
                false,
                direction,
                disable_default_response,
            ),
            r.header.manufacturer_code is None,
            r.header.seq_number == seq,
            r.header.command_id == command_id,
            u8x128_items(r.payload) == Seq::<u8>::empty(),
    {
        Self {
            header: ZclFrameHeader {
                frame_control: ZclFrameHeader::build_frame_control(
                    ZclFrameType::ClusterSpecific,
                    false,
                    direction,
                    disable_default_response,
                ),
                manufacturer_code: None,
                seq_number: seq,
                command_id,
            },
            payload: u8x128_new(),
        }
    }
}

/// A header of a defined frame type (global or cluster-specific) whose
/// manufacturer code is present exactly when its frame control says it is
/// manufacturer-specific.
pub open spec fn header_consistent(h: ZclFrameHeader) -> bool {
    &&& h.frame_control & 0x03 < 2
    &&& (h.frame_control & FC_MANUFACTURER_SPECIFIC != 0) <==> h.manufacturer_code is Some
}

/// Parsing the bytes of a consistent header followed by a payload of at
/// most 128 bytes gives back the header and the payload.
pub proof fn lemma_frame_serialize_parse(h: ZclFrameHeader, payload: Seq<u8>)
    requires
        header_consistent(h),
        payload.len() <= MAX_ZCL_PAYLOAD,
    ensures
        spec_parse_frame(spec_header_bytes(h) + payload) == Ok::<(ZclFrameHeader, Seq<u8>), ZclFrameError>((h, payload)),
{
    let d = spec_header_bytes(h) + payload;
    let hb = spec_header_bytes(h);
    assert(d[0] == h.frame_control);
    if let Some(m) = h.manufacturer_code {
        crate::types::lemma_le_u16_split(m);
        assert(d[1] == spec_lo(m) && d[2] == spec_hi(m));
        assert(d[3] == h.seq_number && d[4] == h.command_id.0);
        assert(d.subrange(5, d.len() as int) =~= payload);
    } else {
        assert(d[1] == h.seq_number && d[2] == h.command_id.0);
        assert(d.subrange(3, d.len() as int) =~= payload);
    }
}

/// A ZCL frame is read from its wire layout: the frame-control byte (frame
/// type in bits 0-1, which must be global or cluster-specific), the
/// manufacturer code when bit 2 is set (two bytes, little-endian), the
/// sequence number, the command identifier, and the payload, which holds
/// at most 128 bytes.
pub proof fn law_frame_layout(data: Seq<u8>)
    ensures
        spec_parse_frame(data) == ({
            let ms = data.len() >= 1 && (data[0] >> 2) & 1 == 1;
            let hl: int = if ms { 5 } else { 3 };
            if data.len() < 3 {
                Err::<(ZclFrameHeader, Seq<u8>), ZclFrameError>(ZclFrameError::TooShort)
            } else if data[0] % 4 >= 2 {
                Err(ZclFrameError::InvalidFrameType)
            } else if data.len() < hl {
                Err(ZclFrameError::TooShort)
            } else if data.len() - hl > 128 {
                Err(ZclFrameError::PayloadTooLarge)
            } else {
                Ok(
                    (
                        ZclFrameHeader {
                            frame_control: data[0],
                            manufacturer_code: if ms { Some((data[1] + 256 * data[2]) as u16) } else { None },
                            seq_number: data[hl - 2],
                            command_id: CommandId(data[hl - 1]),
                        },
                        data.subrange(hl, data.len() as int),
                    ),
                )
            }
        }),
{
    if data.len() >= 1 {
        let b = data[0];
        assert((b & 0x03 >= 2) == (b % 4 >= 2)) by (bit_vector);
        assert((b & FC_MANUFACTURER_SPECIFIC != 0) == ((b >> 2) & 1 == 1)) by (bit_vector);
    }
}

/// A successfully parsed frame serializes back to the bytes it was parsed from.
pub proof fn lemma_frame_parse_serialize(data: Seq<u8>)
    requires
        spec_parse_frame(data) is Ok,
    ensures
        ({
            let (h, payload) = spec_parse_frame(data).unwrap();
            &&& header_consistent(h)
            &&& spec_header_bytes(h) + payload == data
        }),
{
    let (h, payload) = spec_parse_frame(data).unwrap();
    if let Some(m) = h.manufacturer_code {
        crate::types::lemma_le_u16_join(data[1], data[2]);
    }
    assert(spec_header_bytes(h) + payload =~= data);
}

} // verus!
