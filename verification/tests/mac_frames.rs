use zigbee_stack::mac::frames::{
    addressing_size, build_association_request, build_beacon_request, build_data_request,
    build_data_request_short, parse_association_response, parse_beacon, parse_dest_address,
    parse_mac_addresses, parse_source_address, parse_zigbee_beacon,
};
use zigbee_stack::mac::primitives::{CapabilityInfo, SuperframeSpec};
use zigbee_stack::types::{MacAddress, PanId, ShortAddress};

const OWN: [u8; 8] = [0x11, 0x22, 0x33, 0x44, 0x55, 0x66, 0x77, 0x88];

#[test]
fn beacon_request_bytes() {
    assert_eq!(build_beacon_request(0x5A), [0x03, 0x08, 0x5A, 0xFF, 0xFF, 0xFF, 0xFF, 0x07]);
}

#[test]
fn association_request_short_coordinator() {
    let coord = MacAddress::Short(PanId(0x1A62), ShortAddress(0x0000));
    let cap = CapabilityInfo { allocate_address: true, rx_on_when_idle: true, ..Default::default() };
    let f = build_association_request(7, &coord, &OWN, &cap);
    assert_eq!(
        f.as_slice(),
        &[0x63, 0xC8, 7, 0x62, 0x1A, 0x00, 0x00, 0x11, 0x22, 0x33, 0x44, 0x55, 0x66, 0x77, 0x88, 0x01, 0x88]
    );
}

#[test]
fn association_request_extended_coordinator() {
    let coord = MacAddress::Extended(PanId(0xABCD), [1, 2, 3, 4, 5, 6, 7, 8]);
    let cap = CapabilityInfo::default();
    let f = build_association_request(1, &coord, &OWN, &cap);
    assert_eq!(f.len(), 3 + 2 + 8 + 8 + 2);
    assert_eq!(&f[3..13], &[0xCD, 0xAB, 1, 2, 3, 4, 5, 6, 7, 8]);
    assert_eq!(f[21], 0x01);
    assert_eq!(f[22], 0x00);
}

#[test]
fn data_request_extended_source() {
    let coord = MacAddress::Short(PanId(0x1234), ShortAddress(0x0000));
    let f = build_data_request(9, &coord, &OWN);
    assert_eq!(
        f.as_slice(),
        &[0x63, 0xC8, 9, 0x34, 0x12, 0x00, 0x00, 0x11, 0x22, 0x33, 0x44, 0x55, 0x66, 0x77, 0x88, 0x04]
    );
}

#[test]
fn data_request_short_source() {
    let coord = MacAddress::Short(PanId(0x1234), ShortAddress(0xABCD));
    let f = build_data_request_short(3, &coord, ShortAddress(0x796F));
    assert_eq!(f.as_slice(), &[0x63, 0x88, 3, 0x34, 0x12, 0xCD, 0xAB, 0x6F, 0x79, 0x04]);
}

#[test]
fn addressing_sizes() {
    assert_eq!(addressing_size(0x0803), 4); // dst short, no src
    assert_eq!(addressing_size(0xC863), 2 + 2 + 8); // dst short, src ext, compressed
    assert_eq!(addressing_size(0x8823), 4 + 4); // dst short, src short, not compressed
    assert_eq!(addressing_size(0xCC00), 10 + 10); // both extended, not compressed
    assert_eq!(addressing_size(0x0000), 0);
}

#[test]
fn source_address_short_compressed() {
    // fc 0x8861: data, pan compress, dst short, src short
    let data = [0x61, 0x88, 0x01, 0x34, 0x12, 0x00, 0x00, 0xCD, 0xAB];
    let a = parse_source_address(&data, 0x8861).unwrap();
    assert_eq!(a, MacAddress::Short(PanId(0x1234), ShortAddress(0xABCD)));
}

#[test]
fn source_address_extended_own_pan() {
    // fc 0xC821: dst short, src ext, no compression
    let mut data = vec![0x21, 0xC8, 0x01, 0x34, 0x12, 0xFF, 0xFF, 0x78, 0x56];
    data.extend_from_slice(&OWN);
    let a = parse_source_address(&data, 0xC821).unwrap();
    assert_eq!(a, MacAddress::Extended(PanId(0x5678), OWN));
}

#[test]
fn source_address_absent() {
    let data = [0x03, 0x08, 0x01, 0xFF, 0xFF, 0xFF, 0xFF, 0x07];
    assert_eq!(parse_source_address(&data, 0x0803), None);
    // truncated source
    let data = [0x61, 0x88, 0x01, 0x34, 0x12, 0x00, 0x00, 0xCD];
    assert_eq!(parse_source_address(&data, 0x8861), None);
}

#[test]
fn dest_address_short_and_extended() {
    let data = [0x61, 0x88, 0x01, 0x34, 0x12, 0x00, 0x00, 0xCD, 0xAB];
    assert_eq!(parse_dest_address(&data, 0x8861), Some(MacAddress::Short(PanId(0x1234), ShortAddress(0))));
    let mut data = vec![0x01, 0x0C, 0x01, 0x34, 0x12];
    data.extend_from_slice(&OWN);
    assert_eq!(parse_dest_address(&data, 0x0C01), Some(MacAddress::Extended(PanId(0x1234), OWN)));
    assert_eq!(parse_dest_address(&[0x01, 0x08, 0x01, 0x34], 0x0801), None);
}

fn zigbee_payload() -> [u8; 15] {
    // protocol 0, nwk info: stack profile 2, version 2, router cap, depth 1, end dev cap
    // bits: 0x0002 | 0x0020 | 0x0400 | (1 << 11) | 0x8000 = 0x8C22
    [0x00, 0x22, 0x8C, 1, 2, 3, 4, 5, 6, 7, 8, 0xAA, 0xBB, 0xCC, 0x05]
}

#[test]
fn zigbee_beacon_fields() {
    let b = parse_zigbee_beacon(&zigbee_payload());
    assert_eq!(b.protocol_id, 0);
    assert_eq!(b.stack_profile, 2);
    assert_eq!(b.protocol_version, 2);
    assert!(b.router_capacity);
    assert_eq!(b.device_depth, 1);
    assert!(b.end_device_capacity);
    assert_eq!(b.extended_pan_id, [1, 2, 3, 4, 5, 6, 7, 8]);
    assert_eq!(b.tx_offset, [0xAA, 0xBB, 0xCC]);
    assert_eq!(b.update_id, 5);
}

#[test]
fn beacon_with_zigbee_payload() {
    let mut data = vec![0x00, 0x80, 0x12, 0x62, 0x1A, 0x00, 0x00, 0xFF, 0xCF];
    data.extend_from_slice(&zigbee_payload());
    let d = parse_beacon(15, &data, 200).unwrap();
    assert_eq!(d.coord_address, MacAddress::Short(PanId(0x1A62), ShortAddress(0x0000)));
    assert_eq!(d.channel, 15);
    assert_eq!(d.lqi, 200);
    assert!(!d.security_use);
    assert_eq!(d.superframe_spec, SuperframeSpec::from_raw(0xCFFF));
    assert!(d.superframe_spec.association_permit);
    assert!(d.superframe_spec.pan_coordinator);
    assert_eq!(d.zigbee_beacon.extended_pan_id, [1, 2, 3, 4, 5, 6, 7, 8]);
}

#[test]
fn beacon_without_zigbee_payload_uses_defaults() {
    let data = [0x00, 0x80, 0x12, 0x62, 0x1A, 0x00, 0x00, 0xFF, 0x4F];
    let d = parse_beacon(20, &data, 10).unwrap();
    assert_eq!(d.zigbee_beacon.stack_profile, 2);
    assert_eq!(d.zigbee_beacon.protocol_version, 2);
    assert!(d.zigbee_beacon.router_capacity);
    assert!(d.zigbee_beacon.end_device_capacity);
    assert_eq!(d.zigbee_beacon.tx_offset, [0xFF, 0xFF, 0xFF]);
    assert!(!d.superframe_spec.association_permit);
}

#[test]
fn beacon_rejects_short_or_non_beacon() {
    assert!(parse_beacon(11, &[0x00, 0x80, 0x12, 0x62, 0x1A, 0x00, 0x00, 0xFF], 0).is_none());
    assert!(parse_beacon(11, &[0x01, 0x80, 0x12, 0x62, 0x1A, 0x00, 0x00, 0xFF, 0x4F], 0).is_none());
}

#[test]
fn superframe_spec_fields() {
    let s = SuperframeSpec::from_raw(0xCF21);
    assert_eq!(s.beacon_order, 1);
    assert_eq!(s.superframe_order, 2);
    assert_eq!(s.final_cap_slot, 0xF);
    assert!(!s.battery_life_extension);
    assert!(s.pan_coordinator);
    assert!(s.association_permit);
}

#[test]
fn capability_byte() {
    let cap = CapabilityInfo {
        alternate_pan_coordinator: true,
        device_type_ffd: true,
        mains_powered: true,
        rx_on_when_idle: true,
        security_capable: true,
        allocate_address: true,
    };
    assert_eq!(cap.to_byte(), 0xCF);
    assert_eq!(CapabilityInfo::default().to_byte(), 0);
}

#[test]
fn mac_addresses_of_data_frame() {
    let data = [0x61, 0x88, 0x01, 0x34, 0x12, 0x00, 0x00, 0xCD, 0xAB, 0xEE];
    let (src, dst, off, sec) = parse_mac_addresses(&data);
    assert_eq!(src, MacAddress::Short(PanId(0x1234), ShortAddress(0xABCD)));
    assert_eq!(dst, MacAddress::Short(PanId(0x1234), ShortAddress(0x0000)));
    assert_eq!(off, 9);
    assert!(!sec);
}

#[test]
fn mac_addresses_short_frame_defaults() {
    let (src, dst, off, sec) = parse_mac_addresses(&[0x61, 0x88]);
    assert_eq!(src, MacAddress::Short(PanId(0xFFFF), ShortAddress(0xFFFF)));
    assert_eq!(dst, MacAddress::Short(PanId(0xFFFF), ShortAddress(0xFFFF)));
    assert_eq!(off, 0);
    assert!(!sec);
}

#[test]
fn mac_addresses_security_bit_and_extended_source() {
    // fc 0xC869: data, security, pan compress, dst short, src ext
    let mut data = vec![0x69, 0xC8, 0x01, 0x34, 0x12, 0x00, 0x00];
    data.extend_from_slice(&OWN);
    let (src, _dst, off, sec) = parse_mac_addresses(&data);
    assert_eq!(src, MacAddress::Extended(PanId(0x1234), OWN));
    assert_eq!(off, 15);
    assert!(sec);
}

#[test]
fn association_response_parsed() {
    // fc 0xCC63: command, ack, compress, dst ext, src ext
    let mut data = vec![0x63, 0xCC, 0x01, 0x34, 0x12];
    data.extend_from_slice(&OWN);
    data.extend_from_slice(&[9, 9, 9, 9, 9, 9, 9, 9]);
    data.extend_from_slice(&[0x02, 0x6F, 0x79, 0x00]);
    assert_eq!(parse_association_response(&data), Some((ShortAddress(0x796F), 0x00)));
}

#[test]
fn association_response_rejected() {
    assert_eq!(parse_association_response(&[0x63, 0xCC, 0x01, 0x34]), None);
    // not a command frame
    let data = [0x61, 0x88, 0x01, 0x34, 0x12, 0x00, 0x00, 0xCD, 0xAB, 0x02, 0x00, 0x00, 0x00];
    assert_eq!(parse_association_response(&data), None);
    // other command
    let data = [0x63, 0x88, 0x01, 0x34, 0x12, 0x00, 0x00, 0xCD, 0xAB, 0x04, 0x00, 0x00, 0x00];
    assert_eq!(parse_association_response(&data), None);
}

#[test]
fn association_response_without_status_is_rejected() {
    // command frame without addressing: the status byte is missing
    assert_eq!(parse_association_response(&[0x03, 0x00, 0x01, 0x02, 0x34, 0x12]), None);
    assert_eq!(
        parse_association_response(&[0x03, 0x00, 0x01, 0x02, 0x34, 0x12, 0x00]),
        Some((ShortAddress(0x1234), 0x00))
    );
}

#[test]
fn built_requests_parse_back() {
    let coord = MacAddress::Short(PanId(0x1A62), ShortAddress(0x0000));
    let f = build_data_request(4, &coord, &OWN);
    let (src, dst, off, sec) = parse_mac_addresses(f.as_slice());
    assert_eq!(src, MacAddress::Extended(PanId(0x1A62), OWN));
    assert_eq!(dst, coord);
    assert_eq!(off, 15);
    assert!(!sec);
    let f = build_data_request_short(5, &coord, ShortAddress(0x796F));
    let (src, dst, off, _) = parse_mac_addresses(f.as_slice());
    assert_eq!(src, MacAddress::Short(PanId(0x1A62), ShortAddress(0x796F)));
    assert_eq!(dst, coord);
    assert_eq!(off, 9);
    let cap = CapabilityInfo { allocate_address: true, ..Default::default() };
    let f = build_association_request(6, &coord, &OWN, &cap);
    let (_, _, off, _) = parse_mac_addresses(f.as_slice());
    assert_eq!(off, 15);
    assert_eq!(off, 3 + addressing_size(u16::from_le_bytes([f[0], f[1]])));
}
