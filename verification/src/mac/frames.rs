//! IEEE 802.15.4 MAC frame builders and parsers shared by all radio backends.

use vstd::prelude::*;
use crate::types::{
    MacAddress, PanId, ShortAddress, IeeeAddress, le_u16, spec_le_u16, u16_le_bytes, spec_lo,
    spec_hi,
};
use crate::mac::primitives::{
    MacAddressView, SuperframeSpec, ZigbeeBeaconPayload, PanDescriptor, CapabilityInfo,
};
use crate::hvec::{
    u8x24_items, u8x24_new, u8x24_push, u8x24_extend_from_slice, u8x32_items, u8x32_new,
    u8x32_push, u8x32_extend_from_slice,
};

verus! {

// ── Frame-control fields ────────────────────────────────────────

/// Frame type (bits 0-2).
pub open spec fn fc_frame_type(fc: u16) -> u16 {
    fc & 0x07
}

/// Security enabled (bit 3).
pub open spec fn fc_security(fc: u16) -> bool {
    (fc >> 3) & 1 != 0
}

/// PAN-ID compression (bit 6).
pub open spec fn fc_pan_compress(fc: u16) -> bool {
    (fc >> 6) & 1 != 0
}

/// Destination addressing mode (bits 10-11).
pub open spec fn fc_dst_mode(fc: u16) -> u16 {
    (fc >> 10) & 0x03
}

/// Source addressing mode (bits 14-15).
pub open spec fn fc_src_mode(fc: u16) -> u16 {
    (fc >> 14) & 0x03
}

proof fn lemma_modes_bounded(fc: u16)
    ensures
        fc_dst_mode(fc) <= 3,
        fc_src_mode(fc) <= 3,
{
    assert((fc >> 10) & 0x03 <= 3 && (fc >> 14) & 0x03 <= 3) by (bit_vector);
}

/// The little-endian `u16` at `i` in `data`.
pub open spec fn le16_at(data: Seq<u8>, i: int) -> u16 {
    spec_le_u16(data[i], data[i + 1])
}

/// Two little-endian bytes of a value.
pub open spec fn le_bytes(v: u16) -> Seq<u8> {
    seq![spec_lo(v), spec_hi(v)]
}

/// The bytes of a coordinator address in a MAC header: two for a short
/// address, the eight extended-address bytes otherwise.
pub open spec fn coord_addr_bytes(coord: MacAddress) -> Seq<u8> {
    match coord {
        MacAddress::Short(_, a) => le_bytes(a.0),
        MacAddress::Extended(_, e) => e@,
    }
}

// ── Frame builders ──────────────────────────────────────────────

/// Bytes of a Beacon Request MAC command (broadcast, no ACK).
pub open spec fn spec_beacon_request(seq: u8) -> Seq<u8> {
    seq![0x03u8, 0x08u8, seq, 0xFFu8, 0xFFu8, 0xFFu8, 0xFFu8, 0x07u8]
}

/// Build a Beacon Request MAC command (broadcast, no ACK).
///
/// FC = 0x0803: command frame, short destination, no source address.
pub fn build_beacon_request(seq: u8) -> (r: [u8; 8])
    ensures
        r@ == spec_beacon_request(seq),
{
    let fc: u16 = 0x0803;
    let (lo, hi) = u16_le_bytes(fc);
    let r = [
        lo,
        hi,
        seq,
        0xFF, 0xFF,  // dst PAN = broadcast
        0xFF, 0xFF,  // dst addr = broadcast
        0x07,  // Beacon Request command ID
    ];
    assert(r@ =~= spec_beacon_request(seq));
    r
}

/// Bytes of an Association Request MAC command.
pub open spec fn spec_association_request(
    seq: u8,
    coord: MacAddress,
    own_extended: Seq<u8>,
    cap: CapabilityInfo,
) -> Seq<u8> {
    seq![0x63u8, 0xC8u8, seq] + le_bytes(coord.spec_pan_id().0) + coord_addr_bytes(coord)
        + own_extended + seq![0x01u8, cap.spec_to_byte()]
}

/// Append the destination PAN and coordinator address.
fn push_coord_24(frame: &mut heapless::Vec<u8, 24>, coord: &MacAddress)
    requires
        u8x24_items(*old(frame)).len() <= 3,
    ensures
        u8x24_items(*final(frame)) == u8x24_items(*old(frame)) + le_bytes(coord.spec_pan_id().0)
            + coord_addr_bytes(*coord),
{
    let dst_pan = coord.pan_id();
    let (plo, phi) = u16_le_bytes(dst_pan.0);
    let _ = u8x24_extend_from_slice(frame, &[plo, phi]);
    match coord {
        MacAddress::Short(_, addr) => {
            let (lo, hi) = u16_le_bytes(addr.0);
            let _ = u8x24_extend_from_slice(frame, &[lo, hi]);
        },
        MacAddress::Extended(_, addr) => {
            let _ = u8x24_extend_from_slice(frame, addr);
        },
    }
    assert(u8x24_items(*final(frame)) =~= u8x24_items(*old(frame)) + le_bytes(coord.spec_pan_id().0)
        + coord_addr_bytes(*coord));
}

/// Build an Association Request MAC command.
///
/// FC = 0xC863: command, ACK request, PAN compress, dst=short, src=extended.
pub fn build_association_request(
    seq: u8,
    coord: &MacAddress,
    own_extended: &IeeeAddress,
    cap: &CapabilityInfo,
) -> (r: heapless::Vec<u8, 32>)
    ensures
        u8x32_items(r) == spec_association_request(seq, *coord, own_extended@, *cap),
{
    let mut frame = u8x32_new();
    let _ = u8x32_extend_from_slice(&mut frame, &[0x63, 0xC8, seq]);
    let dst_pan = coord.pan_id();
    let (plo, phi) = u16_le_bytes(dst_pan.0);
    let _ = u8x32_extend_from_slice(&mut frame, &[plo, phi]);
    match coord {
        MacAddress::Short(_, addr) => {
            let (lo, hi) = u16_le_bytes(addr.0);
            let _ = u8x32_extend_from_slice(&mut frame, &[lo, hi]);
        },
        MacAddress::Extended(_, addr) => {
            let _ = u8x32_extend_from_slice(&mut frame, addr);
        },
    }
    let _ = u8x32_extend_from_slice(&mut frame, own_extended);
    let _ = u8x32_push(&mut frame, 0x01);  // Association Request command ID
    let _ = u8x32_push(&mut frame, cap.to_byte());
    assert(u8x32_items(frame) =~= spec_association_request(seq, *coord, own_extended@, *cap));
    frame
}

/// Bytes of a Data Request MAC command with an extended source address.
pub open spec fn spec_data_request(seq: u8, coord: MacAddress, own_extended: Seq<u8>) -> Seq<u8> {
    seq![0x63u8, 0xC8u8, seq] + le_bytes(coord.spec_pan_id().0) + coord_addr_bytes(coord)
        + own_extended + seq![0x04u8]
}

/// Build a Data Request MAC command with IEEE (extended) source address.
///
/// Used for indirect frame retrieval (polling the parent).
/// FC = 0xC863: command, ACK request, PAN compress, dst=short, src=extended.
pub fn build_data_request(seq: u8, coord: &MacAddress, own_extended: &IeeeAddress) -> (r:
    heapless::Vec<u8, 24>)
    ensures
        u8x24_items(r) == spec_data_request(seq, *coord, own_extended@),
{
    let mut frame = u8x24_new();
    let _ = u8x24_extend_from_slice(&mut frame, &[0x63, 0xC8, seq]);
    push_coord_24(&mut frame, coord);
    let _ = u8x24_extend_from_slice(&mut frame, own_extended);
    let _ = u8x24_push(&mut frame, 0x04);  // Data Request command ID
    assert(u8x24_items(frame) =~= spec_data_request(seq, *coord, own_extended@));
    frame
}

/// Bytes of a Data Request MAC command with a short source address.
pub open spec fn spec_data_request_short(seq: u8, coord: MacAddress, own_short: u16) -> Seq<u8> {
    seq![0x63u8, 0x88u8, seq] + le_bytes(coord.spec_pan_id().0) + coord_addr_bytes(coord)
        + le_bytes(own_short) + seq![0x04u8]
}

/// Build a Data Request MAC command with SHORT source address.
///
/// Used after association, once a short address is assigned.
/// FC = 0x8863: command, ACK request, PAN compress, dst=short, src=short.
pub fn build_data_request_short(seq: u8, coord: &MacAddress, own_short: ShortAddress) -> (r:
    heapless::Vec<u8, 24>)
    ensures
        u8x24_items(r) == spec_data_request_short(seq, *coord, own_short.0),
{
    let mut frame = u8x24_new();
    let _ = u8x24_extend_from_slice(&mut frame, &[0x63, 0x88, seq]);
    push_coord_24(&mut frame, coord);
    let (lo, hi) = u16_le_bytes(own_short.0);
    let _ = u8x24_extend_from_slice(&mut frame, &[lo, hi]);
    let _ = u8x24_push(&mut frame, 0x04);  // Data Request command ID
    assert(u8x24_items(frame) =~= spec_data_request_short(seq, *coord, own_short.0));
    frame
}

// ── Frame parsers ───────────────────────────────────────────────

/// Bytes taken by the destination PAN and address for a destination mode.
pub open spec fn dst_fields_size(dst_mode: u16) -> int {
    if dst_mode == 2 { 4 } else if dst_mode == 3 { 10 } else { 0 }
}

/// Bytes taken by the source PAN (unless compressed) and address.
pub open spec fn src_fields_size(src_mode: u16, pan_compress: bool) -> int {
    if src_mode == 2 {
        if pan_compress { 2 } else { 4 }
    } else if src_mode == 3 {
        if pan_compress { 8 } else { 10 }
    } else {
        0
    }
}

/// Total size of the addressing fields called for by a frame control.
pub open spec fn spec_addressing_size(fc: u16) -> int {
    dst_fields_size(fc_dst_mode(fc)) + src_fields_size(fc_src_mode(fc), fc_pan_compress(fc))
}

/// Calculate total addressing field size from frame control.
pub fn addressing_size(fc: u16) -> (r: usize)
    ensures
        r == spec_addressing_size(fc),
        r <= 20,
{
    let dst_mode = (fc >> 10) & 0x03;
    let src_mode = (fc >> 14) & 0x03;
    let pan_compress = (fc >> 6) & 1 != 0;

    let mut size: usize = 0;
    match dst_mode {
        0x02 => size += 2 + 2,  // PAN(2) + Short(2)
        0x03 => size += 2 + 8,  // PAN(2) + Extended(8)
        _ => {},
    }
    match src_mode {
        0x02 => size += if pan_compress { 2 } else { 4 },
        0x03 => size += if pan_compress { 8 } else { 10 },
        _ => {},
    }
    size
}

/// Copy eight bytes starting at `at`.
fn read_array8(data: &[u8], at: usize) -> (r: [u8; 8])
    requires
        at + 8 <= data@.len(),
    ensures
        r@ == data@.subrange(at as int, at + 8),
{
    let mut r = [0u8; 8];
    let n = data.len();
    let mut i: usize = 0;
    while i < 8
        invariant
            i <= 8,
            at + 8 <= n,
            n == data@.len(),
            forall|j: int| 0 <= j < i ==> r@[j] == data@[at + j],
        decreases 8 - i,
    {
        r[i] = data[at + i];
        i += 1;
    }
    assert(r@ =~= data@.subrange(at as int, at + 8));
    r
}

/// Copy three bytes starting at `at`.
fn read_array3(data: &[u8], at: usize) -> (r: [u8; 3])
    requires
        at + 3 <= data@.len(),
    ensures
        r@ == data@.subrange(at as int, at + 3),
{
    let r = [data[at], data[at + 1], data[at + 2]];
    assert(r@ =~= data@.subrange(at as int, at + 3));
    r
}

/// The address at `o` of the given mode, with the given PAN, when the data
/// holds it; `None` for modes 0 and 1 and when the data is too short.
pub open spec fn spec_address_at(data: Seq<u8>, mode: u16, pan: u16, o: int) -> Option<MacAddressView> {
    if mode == 2 && data.len() >= o + 2 {
        Some(MacAddressView::Short(pan, le16_at(data, o)))
    } else if mode == 3 && data.len() >= o + 8 {
        Some(MacAddressView::Extended(pan, data.subrange(o, o + 8)))
    } else {
        None
    }
}

/// Read the address of `mode` at `o`, as `spec_address_at` describes.
fn read_address(data: &[u8], mode: u16, pan: u16, o: usize) -> (r: Option<MacAddress>)
    requires
        o <= 20,
    ensures
        match r {
            Some(a) => spec_address_at(data@, mode, pan, o as int) == Some(a@),
            None => spec_address_at(data@, mode, pan, o as int) is None,
        },
{
    if mode == 0x02 && data.len() >= o + 2 {
        let addr = le_u16(data[o], data[o + 1]);
        Some(MacAddress::Short(PanId(pan), ShortAddress(addr)))
    } else if mode == 0x03 && data.len() >= o + 8 {
        let ext = read_array8(data, o);
        Some(MacAddress::Extended(PanId(pan), ext))
    } else {
        None
    }
}

/// The source address of a raw MAC frame, as the parser reads it.
///
/// The destination PAN is read when the destination mode is short or
/// extended and two bytes follow the sequence number; the destination
/// address is skipped (whether or not the data holds it); the source PAN is
/// read when not compressed and present, and otherwise taken from the
/// destination PAN (0xFFFF when that was not read).
pub open spec fn spec_parse_source_address(data: Seq<u8>, fc: u16) -> Option<MacAddressView> {
    let dm = fc_dst_mode(fc);
    let sm = fc_src_mode(fc);
    let has_dst_pan = dm >= 2 && data.len() > 4;
    let o1: int = if has_dst_pan { 5 } else { 3 };
    let o2: int = o1 + if dm == 2 { 2int } else if dm == 3 { 8int } else { 0int };
    let has_src_pan = !fc_pan_compress(fc) && sm >= 2 && data.len() > o2 + 1;
    let src_pan = if has_src_pan {
        le16_at(data, o2)
    } else if has_dst_pan {
        le16_at(data, 3)
    } else {
        0xFFFFu16
    };
    let o3: int = o2 + if has_src_pan { 2int } else { 0int };
    spec_address_at(data, sm, src_pan, o3)
}

/// Parse source address from raw MAC frame.
pub fn parse_source_address(data: &[u8], fc: u16) -> (r: Option<MacAddress>)
    ensures
        match r {
            Some(a) => spec_parse_source_address(data@, fc) == Some(a@),
            None => spec_parse_source_address(data@, fc) is None,
        },
{
    let dst_mode = (fc >> 10) & 0x03;
    let src_mode = (fc >> 14) & 0x03;
    let pan_compress = (fc >> 6) & 1 != 0;
    proof {
        lemma_modes_bounded(fc);
    }

    let mut offset: usize = 3;
    let dst_pan = if dst_mode >= 2 && data.len() > offset + 1 {
        let pan = le_u16(data[offset], data[offset + 1]);
        offset += 2;
        Some(pan)
    } else {
        None
    };
    match dst_mode {
        0x02 => offset += 2,
        0x03 => offset += 8,
        _ => {},
    }

    let src_pan = if !pan_compress && src_mode >= 2 && data.len() > offset + 1 {
        let pan = le_u16(data[offset], data[offset + 1]);
        offset += 2;
        pan
    } else {
        match dst_pan {
            Some(p) => p,
            None => 0xFFFF,
        }
    };
    read_address(data, src_mode, src_pan, offset)
}

/// The destination address of a raw MAC frame: PAN at offset 3, address at 5.
pub open spec fn spec_parse_dest_address(data: Seq<u8>, fc: u16) -> Option<MacAddressView> {
    if data.len() < 5 {
        None
    } else {
        spec_address_at(data, fc_dst_mode(fc), le16_at(data, 3), 5)
    }
}

/// Parse destination address from raw MAC frame.
pub fn parse_dest_address(data: &[u8], fc: u16) -> (r: Option<MacAddress>)
    ensures
        match r {
            Some(a) => spec_parse_dest_address(data@, fc) == Some(a@),
            None => spec_parse_dest_address(data@, fc) is None,
        },
{
    let dst_mode = (fc >> 10) & 0x03;
    let offset: usize = 3;

    if data.len() < offset + 2 {
        return None;
    }
    let pan = le_u16(data[offset], data[offset + 1]);
    let addr_offset = offset + 2;
    read_address(data, dst_mode, pan, addr_offset)
}

/// The Zigbee beacon payload fields encoded in `data` (at least 15 bytes).
pub open spec fn beacon_payload_of(b: ZigbeeBeaconPayload, data: Seq<u8>) -> bool {
    let nwk_info = le16_at(data, 1);
    &&& b.protocol_id == data[0]
    &&& b.stack_profile == (nwk_info & 0x0F) as u8
    &&& b.protocol_version == ((nwk_info >> 4) & 0x0F) as u8
    &&& b.router_capacity == ((nwk_info >> 10) & 1 != 0)
    &&& b.device_depth == ((nwk_info >> 11) & 0x0F) as u8
    &&& b.end_device_capacity == ((nwk_info >> 15) & 1 != 0)
    &&& b.extended_pan_id@ == data.subrange(3, 11)
    &&& b.tx_offset@ == data.subrange(11, 14)
    &&& b.update_id == data[14]
}

/// Parse Zigbee beacon payload (at least 15 bytes).
pub fn parse_zigbee_beacon(data: &[u8]) -> (r: ZigbeeBeaconPayload)
    requires
        data@.len() >= 15,
    ensures
        beacon_payload_of(r, data@),
{
    let protocol_id = data[0];
    let nwk_info = le_u16(data[1], data[2]);

    let extended_pan_id = read_array8(data, 3);
    let tx_offset = read_array3(data, 11);

    ZigbeeBeaconPayload {
        protocol_id,
        stack_profile: (nwk_info & 0x0F) as u8,
        protocol_version: ((nwk_info >> 4) & 0x0F) as u8,
        router_capacity: (nwk_info >> 10) & 1 != 0,
        device_depth: ((nwk_info >> 11) & 0x0F) as u8,
        end_device_capacity: (nwk_info >> 15) & 1 != 0,
        extended_pan_id,
        tx_offset,
        update_id: data[14],
    }
}

/// The beacon payload assumed when a beacon carries no Zigbee payload.
pub open spec fn is_default_beacon_payload(b: ZigbeeBeaconPayload) -> bool {
    &&& b.protocol_id == 0
    &&& b.stack_profile == 2
    &&& b.protocol_version == 2
    &&& b.router_capacity
    &&& b.device_depth == 0
    &&& b.end_device_capacity
    &&& b.extended_pan_id@ == seq![0u8, 0, 0, 0, 0, 0, 0, 0]
    &&& b.tx_offset@ == seq![0xFFu8, 0xFF, 0xFF]
    &&& b.update_id == 0
}

/// Whether a raw frame is a beacon that `parse_beacon` accepts.
pub open spec fn is_beacon_frame(data: Seq<u8>) -> bool {
    data.len() >= 9 && fc_frame_type(le16_at(data, 0)) == 0
}

/// Parse a beacon frame into a PanDescriptor.
///
/// Handles both MAC-only beacons and full Zigbee beacon payloads.
pub fn parse_beacon(channel: u8, data: &[u8], lqi: u8) -> (r: Option<PanDescriptor>)
    ensures
        r is Some <==> is_beacon_frame(data@),
        r matches Some(d) ==> {
            &&& d.coord_address@ == MacAddressView::Short(le16_at(data@, 3), le16_at(data@, 5))
            &&& d.channel == channel
            &&& d.superframe_spec == SuperframeSpec::spec_from_raw(le16_at(data@, 7))
            &&& d.lqi == lqi
            &&& !d.security_use
            &&& data@.len() >= 24 ==> beacon_payload_of(d.zigbee_beacon, data@.subrange(9, data@.len() as int))
            &&& data@.len() < 24 ==> is_default_beacon_payload(d.zigbee_beacon)
        },
{
    if data.len() < 9 {
        return None;
    }
    let fc = le_u16(data[0], data[1]);
    if fc & 0x07 != 0x00 {
        return None;  // Not a beacon frame
    }

    let src_pan = le_u16(data[3], data[4]);
    let coord_addr = le_u16(data[5], data[6]);
    let superframe_raw = if data.len() > 8 {
        le_u16(data[7], data[8])
    } else {
        0
    };

    let zigbee_beacon = if data.len() >= 24 {
        parse_zigbee_beacon(vstd::slice::slice_subrange(data, 9, data.len()))
    } else {
        let b = ZigbeeBeaconPayload {
            protocol_id: 0,
            stack_profile: 2,
            protocol_version: 2,
            router_capacity: true,
            device_depth: 0,
            end_device_capacity: true,
            extended_pan_id: [0u8; 8],
            tx_offset: [0xFF, 0xFF, 0xFF],
            update_id: 0,
        };
        assert(b.extended_pan_id@ =~= seq![0u8, 0, 0, 0, 0, 0, 0, 0]);
        assert(b.tx_offset@ =~= seq![0xFFu8, 0xFF, 0xFF]);
        b
    };

    Some(
        PanDescriptor {
            coord_address: MacAddress::Short(PanId(src_pan), ShortAddress(coord_addr)),
            channel,
            superframe_spec: SuperframeSpec::from_raw(superframe_raw),
            lqi,
            security_use: false,
            zigbee_beacon,
        },
    )
}

/// The address reported when a frame does not carry one.
pub open spec fn default_address_view() -> MacAddressView {
    MacAddressView::Short(0xFFFF, 0xFFFF)
}

/// Number of bytes an address read by `spec_address_at` takes.
pub open spec fn address_len(a: Option<MacAddressView>) -> int {
    match a {
        Some(MacAddressView::Short(_, _)) => 2,
        Some(MacAddressView::Extended(_, _)) => 8,
        None => 0,
    }
}

/// Source address, destination address, payload offset and security bit of
/// a raw MAC frame, as `parse_mac_addresses` reads them.
///
/// A missing destination is reported as the broadcast address on the
/// broadcast PAN; a missing source as the broadcast short address on the
/// source PAN (which defaults to the destination PAN).
pub open spec fn spec_parse_mac_addresses(data: Seq<u8>) -> (MacAddressView, MacAddressView, int, bool) {
    if data.len() < 3 {
        (default_address_view(), default_address_view(), 0, false)
    } else {
        let fc = le16_at(data, 0);
        let dm = fc_dst_mode(fc);
        let sm = fc_src_mode(fc);
        let has_dst_pan = dm > 0 && 5 <= data.len();
        let dst_pan: u16 = if has_dst_pan { le16_at(data, 3) } else { 0xFFFF };
        let o1: int = if has_dst_pan { 5 } else { 3 };
        let dst = spec_address_at(data, dm, dst_pan, o1);
        let o2 = o1 + address_len(dst);
        let has_src_pan = sm > 0 && !fc_pan_compress(fc) && o2 + 2 <= data.len();
        let src_pan: u16 = if has_src_pan { le16_at(data, o2) } else { dst_pan };
        let o3: int = o2 + if has_src_pan { 2int } else { 0int };
        let src = spec_address_at(data, sm, src_pan, o3);
        let o4 = o3 + address_len(src);
        (
            match src {
                Some(a) => a,
                None => MacAddressView::Short(src_pan, 0xFFFF),
            },
            match dst {
                Some(a) => a,
                None => default_address_view(),
            },
            o4,
            fc_security(fc),
        )
    }
}

/// Parse full MAC addresses from a raw frame.
///
/// Returns (src_address, dst_address, payload_offset, security_bit).
pub fn parse_mac_addresses(data: &[u8]) -> (r: (MacAddress, MacAddress, usize, bool))
    ensures
        (r.0@, r.1@, r.2 as int, r.3) == spec_parse_mac_addresses(data@),
        r.2 <= data@.len(),
{
    let default_addr = MacAddress::Short(PanId(0xFFFF), ShortAddress(0xFFFF));
    if data.len() < 3 {
        return (default_addr, default_addr, 0, false);
    }

    let fc = le_u16(data[0], data[1]);
    let security = (fc >> 3) & 1 != 0;
    let pan_compress = (fc >> 6) & 1 != 0;
    let dst_mode = (fc >> 10) & 0x03;
    let src_mode = (fc >> 14) & 0x03;
    proof {
        lemma_modes_bounded(fc);
    }

    let mut offset: usize = 3;

    let dst_pan: u16 = if dst_mode > 0 && offset + 2 <= data.len() {
        let p = le_u16(data[offset], data[offset + 1]);
        offset += 2;
        p
    } else {
        0xFFFF
    };

    let dst_address = match read_address(data, dst_mode, dst_pan, offset) {
        Some(a) => {
            match a {
                MacAddress::Short(_, _) => offset += 2,
                MacAddress::Extended(_, _) => offset += 8,
            }
            a
        },
        None => default_addr,
    };

    let src_pan: u16 = if src_mode > 0 && !pan_compress && offset + 2 <= data.len() {
        let p = le_u16(data[offset], data[offset + 1]);
        offset += 2;
        p
    } else {
        dst_pan
    };

    let src_address = match read_address(data, src_mode, src_pan, offset) {
        Some(a) => {
            match a {
                MacAddress::Short(_, _) => offset += 2,
                MacAddress::Extended(_, _) => offset += 8,
            }
            a
        },
        None => MacAddress::Short(PanId(src_pan), ShortAddress(0xFFFF)),
    };

    (src_address, dst_address, offset, security)
}

/// Offset of the command identifier in a MAC command frame with frame
/// control `fc`: after the sequence number and the addressing fields
/// (a destination PAN is counted for every non-zero destination mode).
pub open spec fn command_id_offset(fc: u16) -> int {
    let dm = fc_dst_mode(fc);
    let sm = fc_src_mode(fc);
    3 + (if dm > 0 { 2int } else { 0int }) + (if dm == 2 { 2int } else if dm == 3 { 8int } else {
        0int
    }) + (if sm > 0 && !fc_pan_compress(fc) { 2int } else { 0int }) + (if sm == 2 { 2int } else if sm
        == 3 { 8int } else { 0int })
}

/// The assigned short address and status of an Association Response, when
/// `data` is a MAC command frame carrying one.
pub open spec fn spec_parse_association_response(data: Seq<u8>) -> Option<(u16, u8)> {
    if data.len() < 5 {
        None
    } else {
        let fc = le16_at(data, 0);
        let off = command_id_offset(fc);
        if fc_frame_type(fc) != 3 || off + 3 >= data.len() || data[off] != 0x02 {
            None
        } else {
            Some((le16_at(data, off + 1), data[off + 3]))
        }
    }
}

/// Parse an Association Response from a MAC command frame.
///
/// Returns (assigned_short_address, status_byte) if valid; `None` when the
/// frame is not an Association Response command or is too short to hold
/// the address and the status byte.
pub fn parse_association_response(data: &[u8]) -> (r: Option<(ShortAddress, u8)>)
    ensures
        match r {
            Some((a, st)) => spec_parse_association_response(data@) == Some((a.0, st)),
            None => spec_parse_association_response(data@) is None,
        },
{
    if data.len() < 5 {
        return None;
    }
    let fc = le_u16(data[0], data[1]);
    if fc & 0x07 != 0x03 {
        return None;  // Not a command frame
    }

    let dst_mode = (fc >> 10) & 0x03;
    let src_mode = (fc >> 14) & 0x03;
    let pan_compress = (fc >> 6) & 0x01;
    assert(((fc >> 6) & 0x01 == 0) == !((fc >> 6) & 1 != 0)) by (bit_vector);
    proof {
        lemma_modes_bounded(fc);
    }

    let mut offset: usize = 3;
    if dst_mode > 0 {
        offset += 2;
    }  // PAN
    match dst_mode {
        2 => offset += 2,
        3 => offset += 8,
        _ => {},
    }
    if src_mode > 0 && pan_compress == 0 {
        offset += 2;
    }  // Src PAN
    match src_mode {
        2 => offset += 2,
        3 => offset += 8,
        _ => {},
    }

    if offset + 3 >= data.len() {
        return None;
    }
    if data[offset] != 0x02 {
        return None;  // Not Association Response command
    }

    let short = le_u16(data[offset + 1], data[offset + 2]);
    let status = data[offset + 3];
    Some((ShortAddress(short), status))
}

/// In a frame long enough for all its addressing fields, each address is
/// read at its place in the IEEE 802.15.4 header: the frame control (2
/// bytes, little-endian) and sequence number, then the destination PAN and
/// address when the destination mode is not zero, then the source PAN
/// unless PAN-ID compression is set (the source then shares the
/// destination's PAN), then the source address; the payload starts right
/// after. A short address takes 2 bytes, an extended one 8; a missing
/// destination reads as 0xFFFF/0xFFFF, a missing source as address 0xFFFF.
pub proof fn law_mac_addresses_layout(data: Seq<u8>)
    requires
        ({
            let fc = (data[0] + 256 * data[1]) as u16;
            let dm = (fc >> 10) & 3;
            let sm = (fc >> 14) & 3;
            let o_dst: int = if dm > 0 { 5 } else { 3 };
            let o_span: int = o_dst + if dm == 2 { 2int } else if dm == 3 { 8int } else { 0int };
            let o_src: int = o_span + if sm > 0 && (fc >> 6) & 1 == 0 { 2int } else { 0int };
            let end: int = o_src + if sm == 2 { 2int } else if sm == 3 { 8int } else { 0int };
            data.len() >= 3 && data.len() >= end
        }),
    ensures
        ({
            let fc = (data[0] + 256 * data[1]) as u16;
            let dm = (fc >> 10) & 3;
            let sm = (fc >> 14) & 3;
            let o_dst: int = if dm > 0 { 5 } else { 3 };
            let o_span: int = o_dst + if dm == 2 { 2int } else if dm == 3 { 8int } else { 0int };
            let o_src: int = o_span + if sm > 0 && (fc >> 6) & 1 == 0 { 2int } else { 0int };
            let end: int = o_src + if sm == 2 { 2int } else if sm == 3 { 8int } else { 0int };
            let dst_pan: u16 = if dm > 0 { (data[3] + 256 * data[4]) as u16 } else { 0xFFFF };
            let src_pan: u16 = if sm > 0 && (fc >> 6) & 1 == 0 {
                (data[o_span] + 256 * data[o_span + 1]) as u16
            } else {
                dst_pan
            };
            let (src, dst, off, sec) = spec_parse_mac_addresses(data);
            &&& off == end
            &&& sec == ((fc >> 3) & 1 != 0)
            &&& dst == if dm == 2 {
                MacAddressView::Short(dst_pan, (data[o_dst] + 256 * data[o_dst + 1]) as u16)
            } else if dm == 3 {
                MacAddressView::Extended(dst_pan, data.subrange(o_dst, o_dst + 8))
            } else {
                MacAddressView::Short(0xFFFF, 0xFFFF)
            }
            &&& src == if sm == 2 {
                MacAddressView::Short(src_pan, (data[o_src] + 256 * data[o_src + 1]) as u16)
            } else if sm == 3 {
                MacAddressView::Extended(src_pan, data.subrange(o_src, o_src + 8))
            } else {
                MacAddressView::Short(src_pan, 0xFFFF)
            }
        }),
{
    let fc = le16_at(data, 0);
    lemma_modes_bounded(fc);
}

/// An Association Response is read from a MAC command frame (frame type
/// 3): after the addressing fields laid out as in
/// [`law_mac_addresses_layout`] comes the command identifier 0x02, the
/// assigned short address (little-endian) and the status byte. Any other
/// frame, or one too short to hold the status byte, gives nothing.
pub proof fn law_association_response_layout(data: Seq<u8>)
    ensures
        spec_parse_association_response(data) == ({
            let fc = (data[0] + 256 * data[1]) as u16;
            let dm = (fc >> 10) & 3;
            let sm = (fc >> 14) & 3;
            let o_dst: int = if dm > 0 { 5 } else { 3 };
            let o_span: int = o_dst + if dm == 2 { 2int } else if dm == 3 { 8int } else { 0int };
            let o_src: int = o_span + if sm > 0 && (fc >> 6) & 1 == 0 { 2int } else { 0int };
            let end: int = o_src + if sm == 2 { 2int } else if sm == 3 { 8int } else { 0int };
            if data.len() >= 5 && fc & 7 == 3 && end + 3 < data.len() && data[end] == 0x02 {
                Some(((data[end + 1] + 256 * data[end + 2]) as u16, data[end + 3]))
            } else {
                None::<(u16, u8)>
            }
        }),
{
    if data.len() >= 5 {
        lemma_modes_bounded(le16_at(data, 0));
    }
}

/// The network information of a Zigbee beacon payload (bytes 1-2,
/// little-endian) holds the stack profile in bits 0-3, the protocol version
/// in bits 4-7, router capacity in bit 10, the device depth in bits 11-14
/// and end-device capacity in bit 15 (bits 8-9 are reserved); the
/// extended PAN ID is bytes 3-10, the transmit offset bytes 11-13 and the
/// update ID byte 14.
pub proof fn law_beacon_payload_layout(b: ZigbeeBeaconPayload, data: Seq<u8>)
    requires
        data.len() >= 15,
        beacon_payload_of(b, data),
    ensures
        b.protocol_id == data[0],
        b.stack_profile < 16,
        b.protocol_version < 16,
        b.device_depth < 16,
        data[1] + 256 * data[2] == b.stack_profile + 16 * b.protocol_version + 256 * (data[2] as int % 4) + (if b.router_capacity {
            1024int
        } else {
            0int
        }) + 2048 * b.device_depth + (if b.end_device_capacity {
            0x8000int
        } else {
            0int
        }),
        b.extended_pan_id@ == data.subrange(3, 11),
        b.tx_offset@ == data.subrange(11, 14),
        b.update_id == data[14],
{
    let lo = data[1];
    let hi = data[2];
    let w = le16_at(data, 1);
    assert(w == spec_le_u16(lo, hi));
    assert(w as int == lo + 256 * hi);
    let s0 = w & 0x0F;
    let v = (w >> 4) & 0x0F;
    let r = (w >> 10) & 1;
    let dd = (w >> 11) & 0x0F;
    let e = (w >> 15) & 1;
    assert(s0 < 16 && v < 16 && dd < 16 && r < 2 && e < 2 && w == s0 + 16 * v + ((w >> 8) & 3) * 256 + 1024 * r
        + 2048 * dd + 0x8000 * e) by (bit_vector)
        requires
            s0 == w & 0x0F,
            v == (w >> 4) & 0x0F,
            r == (w >> 10) & 1,
            dd == (w >> 11) & 0x0F,
            e == (w >> 15) & 1,
    ;
    assert((w >> 8) & 3 == (w as int / 256) % 4) by (bit_vector);
    assert((w as int / 256) % 4 == hi as int % 4);
}

// ── Laws relating builders and parsers ──────────────────────────

proof fn lemma_request_fcs()
    ensures
        le16_at(seq![0x63u8, 0xC8u8], 0) == 0xC863u16,
        le16_at(seq![0x63u8, 0x88u8], 0) == 0x8863u16,
        fc_dst_mode(0xC863) == 2 && fc_src_mode(0xC863) == 3 && fc_pan_compress(0xC863)
            && !fc_security(0xC863) && fc_frame_type(0xC863) == 3,
        fc_dst_mode(0x8863) == 2 && fc_src_mode(0x8863) == 2 && fc_pan_compress(0x8863)
            && !fc_security(0x8863) && fc_frame_type(0x8863) == 3,
{
    assert((0xC863u16 >> 10) & 0x03 == 2 && (0xC863u16 >> 14) & 0x03 == 3 && (0xC863u16 >> 6) & 1
        != 0 && (0xC863u16 >> 3) & 1 == 0 && 0xC863u16 & 0x07 == 3) by (bit_vector);
    assert((0x8863u16 >> 10) & 0x03 == 2 && (0x8863u16 >> 14) & 0x03 == 2 && (0x8863u16 >> 6) & 1
        != 0 && (0x8863u16 >> 3) & 1 == 0 && 0x8863u16 & 0x07 == 3) by (bit_vector);
}

/// A Data Request built for a coordinator with a short address is read back
/// by `parse_mac_addresses`: the source is our extended address on the
/// coordinator's PAN, the destination is the coordinator, and the payload
/// (the command identifier) starts after the 15-byte header.
pub proof fn lemma_data_request_addresses(seq: u8, coord: MacAddress, own_extended: Seq<u8>)
    requires
        coord is Short,
        own_extended.len() == 8,
    ensures
        spec_parse_mac_addresses(spec_data_request(seq, coord, own_extended)) == (
            MacAddressView::Extended(coord.spec_pan_id().0, own_extended),
            coord@,
            15int,
            false,
        ),
{
    let d = spec_data_request(seq, coord, own_extended);
    lemma_request_fcs();
    crate::types::lemma_le_u16_split(coord.spec_pan_id().0);
    if let MacAddress::Short(p, a) = coord {
        crate::types::lemma_le_u16_split(a.0);
        assert(d[0] == 0x63 && d[1] == 0xC8);
        assert(le16_at(d, 0) == 0xC863u16);
        assert(d[3] == spec_lo(p.0) && d[4] == spec_hi(p.0));
        assert(d[5] == spec_lo(a.0) && d[6] == spec_hi(a.0));
        assert(d.subrange(7, 15) =~= own_extended);
    }
}

/// The same holds of an Association Request: our extended address as the
/// source, the coordinator as destination, payload after 15 bytes.
pub proof fn lemma_association_request_addresses(
    seq: u8,
    coord: MacAddress,
    own_extended: Seq<u8>,
    cap: CapabilityInfo,
)
    requires
        coord is Short,
        own_extended.len() == 8,
    ensures
        spec_parse_mac_addresses(spec_association_request(seq, coord, own_extended, cap)) == (
            MacAddressView::Extended(coord.spec_pan_id().0, own_extended),
            coord@,
            15int,
            false,
        ),
{
    let d = spec_association_request(seq, coord, own_extended, cap);
    lemma_request_fcs();
    crate::types::lemma_le_u16_split(coord.spec_pan_id().0);
    if let MacAddress::Short(p, a) = coord {
        crate::types::lemma_le_u16_split(a.0);
        assert(d[0] == 0x63 && d[1] == 0xC8);
        assert(le16_at(d, 0) == 0xC863u16);
        assert(d[3] == spec_lo(p.0) && d[4] == spec_hi(p.0));
        assert(d[5] == spec_lo(a.0) && d[6] == spec_hi(a.0));
        assert(d.subrange(7, 15) =~= own_extended);
    }
}

/// A Data Request built with our short address is read back with that short
/// address as the source and the payload after the 9-byte header.
pub proof fn lemma_data_request_short_addresses(seq: u8, coord: MacAddress, own_short: u16)
    requires
        coord is Short,
    ensures
        spec_parse_mac_addresses(spec_data_request_short(seq, coord, own_short)) == (
            MacAddressView::Short(coord.spec_pan_id().0, own_short),
            coord@,
            9int,
            false,
        ),
{
    let d = spec_data_request_short(seq, coord, own_short);
    lemma_request_fcs();
    crate::types::lemma_le_u16_split(coord.spec_pan_id().0);
    crate::types::lemma_le_u16_split(own_short);
    if let MacAddress::Short(p, a) = coord {
        crate::types::lemma_le_u16_split(a.0);
        assert(d[0] == 0x63 && d[1] == 0x88);
        assert(le16_at(d, 0) == 0x8863u16);
        assert(d[3] == spec_lo(p.0) && d[4] == spec_hi(p.0));
        assert(d[5] == spec_lo(a.0) && d[6] == spec_hi(a.0));
        assert(d[7] == spec_lo(own_short) && d[8] == spec_hi(own_short));
    }
}

/// On a frame long enough for its addressing fields, with no reserved
/// (mode 1) addressing mode, the payload offset found by
/// `parse_mac_addresses` is the 3-byte header plus `addressing_size`.
pub proof fn lemma_payload_offset_matches_addressing_size(data: Seq<u8>)
    requires
        data.len() >= 3,
        fc_dst_mode(le16_at(data, 0)) != 1,
        fc_src_mode(le16_at(data, 0)) != 1,
        data.len() >= 3 + spec_addressing_size(le16_at(data, 0)),
    ensures
        spec_parse_mac_addresses(data).2 == 3 + spec_addressing_size(le16_at(data, 0)),
{
    lemma_modes_bounded(le16_at(data, 0));
}

} // verus!
