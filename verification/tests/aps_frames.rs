use zigbee_stack::aps::frames::{
    ApsCommandId, ApsDeliveryMode, ApsExtendedHeader, ApsFrameControl, ApsFrameType, ApsHeader,
    FRAG_FIRST, FRAG_NONE, FRAG_SUBSEQUENT,
};

#[test]
fn frame_type_from_u8_all_codes() {
    assert_eq!(ApsFrameType::from_u8(0x00), Some(ApsFrameType::Data));
    assert_eq!(ApsFrameType::from_u8(0x01), Some(ApsFrameType::Command));
    assert_eq!(ApsFrameType::from_u8(0x02), Some(ApsFrameType::Ack));
    assert_eq!(ApsFrameType::from_u8(0x03), Some(ApsFrameType::InterPan));
    assert_eq!(ApsFrameType::from_u8(0x04), None);
    assert_eq!(ApsFrameType::from_u8(0xFF), None);
}

#[test]
fn delivery_mode_from_u8_all_codes() {
    assert_eq!(ApsDeliveryMode::from_u8(0), Some(ApsDeliveryMode::Unicast));
    assert_eq!(ApsDeliveryMode::from_u8(1), Some(ApsDeliveryMode::Indirect));
    assert_eq!(ApsDeliveryMode::from_u8(2), Some(ApsDeliveryMode::Broadcast));
    assert_eq!(ApsDeliveryMode::from_u8(3), Some(ApsDeliveryMode::Group));
    assert_eq!(ApsDeliveryMode::from_u8(4), None);
}

#[test]
fn command_id_from_u8() {
    assert_eq!(ApsCommandId::from_u8(0x05), Some(ApsCommandId::TransportKey));
    assert_eq!(ApsCommandId::from_u8(0x09), Some(ApsCommandId::SwitchKey));
    assert_eq!(ApsCommandId::from_u8(0x0E), Some(ApsCommandId::Tunnel));
    assert_eq!(ApsCommandId::from_u8(0x10), Some(ApsCommandId::ConfirmKey));
    assert_eq!(ApsCommandId::from_u8(0x0A), None);
    assert_eq!(ApsCommandId::from_u8(0x00), None);
}

#[test]
fn frame_control_parse_fields() {
    // 0b1110_1101: type 1, delivery 3, ack format 0, security 1, ack req 1, ext hdr 1
    let fc = ApsFrameControl::parse(0xED);
    assert_eq!(fc.frame_type, 1);
    assert_eq!(fc.delivery_mode, 3);
    assert!(!fc.ack_format);
    assert!(fc.security);
    assert!(fc.ack_request);
    assert!(fc.extended_header);
}

#[test]
fn frame_control_serialize_round_trip_every_byte() {
    for b in 0u16..=255 {
        let b = b as u8;
        assert_eq!(ApsFrameControl::parse(b).serialize(), b);
    }
}

#[test]
fn frame_control_serialize_masks_two_bit_fields() {
    let fc = ApsFrameControl {
        frame_type: 0x07,
        delivery_mode: 0x06,
        ack_format: true,
        security: false,
        ack_request: false,
        extended_header: false,
    };
    // frame type 3, delivery 2 << 2 = 0x08, ack format 0x10
    assert_eq!(fc.serialize(), 0x1B);
}

#[test]
fn header_parse_unicast_data() {
    // data, unicast, ack request: fc 0x40
    let data = [0x40, 0x01, 0x06, 0x00, 0x04, 0x01, 0x02, 0x33, 0xAA];
    let (h, n) = ApsHeader::parse(&data).unwrap();
    assert_eq!(n, 8);
    assert_eq!(h.dst_endpoint, Some(0x01));
    assert_eq!(h.group_address, None);
    assert_eq!(h.cluster_id, Some(0x0006));
    assert_eq!(h.profile_id, Some(0x0104));
    assert_eq!(h.src_endpoint, Some(0x02));
    assert_eq!(h.aps_counter, 0x33);
    assert!(h.extended_header.is_none());
    assert!(h.frame_control.ack_request);
}

#[test]
fn header_parse_group_data() {
    // data, group delivery: fc 0x0C
    let data = [0x0C, 0x34, 0x12, 0x06, 0x00, 0x04, 0x01, 0x05, 0x77];
    let (h, n) = ApsHeader::parse(&data).unwrap();
    assert_eq!(n, 9);
    assert_eq!(h.dst_endpoint, None);
    assert_eq!(h.group_address, Some(0x1234));
    assert_eq!(h.cluster_id, Some(0x0006));
    assert_eq!(h.profile_id, Some(0x0104));
    assert_eq!(h.src_endpoint, Some(0x05));
    assert_eq!(h.aps_counter, 0x77);
}

#[test]
fn header_parse_command_frame() {
    // command frame, unicast: no dst endpoint, cluster or profile
    let data = [0x01, 0x00, 0x42];
    let (h, n) = ApsHeader::parse(&data).unwrap();
    assert_eq!(n, 3);
    assert_eq!(h.dst_endpoint, None);
    assert_eq!(h.cluster_id, None);
    assert_eq!(h.profile_id, None);
    assert_eq!(h.src_endpoint, Some(0x00));
    assert_eq!(h.aps_counter, 0x42);
}

#[test]
fn header_parse_interpan_has_no_src_endpoint() {
    // inter-PAN, broadcast (delivery 2): dst ep, cluster, profile, counter
    let data = [0x0B, 0xFF, 0x00, 0x10, 0x5E, 0xC0, 0x09];
    let (h, n) = ApsHeader::parse(&data).unwrap();
    assert_eq!(n, 2);
    assert_eq!(h.src_endpoint, None);
    assert_eq!(h.dst_endpoint, None);
    assert_eq!(h.aps_counter, 0xFF);
}

#[test]
fn header_parse_rejects_truncated() {
    assert!(ApsHeader::parse(&[]).is_none());
    assert!(ApsHeader::parse(&[0x40]).is_none());
    assert!(ApsHeader::parse(&[0x40, 0x01, 0x06]).is_none());
    assert!(ApsHeader::parse(&[0x40, 0x01, 0x06, 0x00, 0x04, 0x01, 0x02]).is_none());
    // extended header bit set but no extended header byte
    assert!(ApsHeader::parse(&[0x81, 0x00, 0x01]).is_none());
}

#[test]
fn header_parse_extended_first_fragment() {
    // data unicast with extended header: fc 0x80
    let data = [0x80, 0x01, 0x06, 0x00, 0x04, 0x01, 0x02, 0x10, 0x01, 0x03, 0x0F];
    let (h, n) = ApsHeader::parse(&data).unwrap();
    assert_eq!(n, 11);
    let ext = h.extended_header.unwrap();
    assert_eq!(ext.fragmentation, FRAG_FIRST);
    assert_eq!(ext.block_number, 3);
    assert_eq!(ext.ack_bitfield, Some(0x0F));
}

#[test]
fn header_parse_extended_first_fragment_without_ack_bitfield() {
    let data = [0x80, 0x01, 0x06, 0x00, 0x04, 0x01, 0x02, 0x10, 0x01, 0x03];
    let (h, n) = ApsHeader::parse(&data).unwrap();
    assert_eq!(n, 10);
    let ext = h.extended_header.unwrap();
    assert_eq!(ext.fragmentation, FRAG_FIRST);
    assert_eq!(ext.ack_bitfield, None);
}

#[test]
fn header_parse_extended_no_fragmentation() {
    let data = [0x81, 0x00, 0x01, 0xFC];
    let (h, n) = ApsHeader::parse(&data).unwrap();
    assert_eq!(n, 4);
    let ext = h.extended_header.unwrap();
    assert_eq!(ext.fragmentation, FRAG_NONE);
    assert_eq!(ext.block_number, 0);
    assert_eq!(ext.ack_bitfield, None);
}

#[test]
fn header_serialize_unicast_data() {
    let h = ApsHeader {
        frame_control: ApsFrameControl::parse(0x40),
        dst_endpoint: Some(0x01),
        group_address: None,
        cluster_id: Some(0x0006),
        profile_id: Some(0x0104),
        src_endpoint: Some(0x02),
        aps_counter: 0x33,
        extended_header: None,
    };
    let mut buf = [0xEEu8; 12];
    let n = h.serialize(&mut buf);
    assert_eq!(n, 8);
    assert_eq!(&buf[..8], &[0x40, 0x01, 0x06, 0x00, 0x04, 0x01, 0x02, 0x33]);
    assert_eq!(&buf[8..], &[0xEE; 4]);
}

#[test]
fn header_serialize_subsequent_fragment() {
    let h = ApsHeader {
        frame_control: ApsFrameControl::parse(0x81),
        dst_endpoint: None,
        group_address: None,
        cluster_id: None,
        profile_id: None,
        src_endpoint: Some(0x00),
        aps_counter: 0x09,
        extended_header: Some(ApsExtendedHeader { fragmentation: FRAG_SUBSEQUENT, block_number: 7, ack_bitfield: None }),
    };
    let mut buf = [0u8; 8];
    let n = h.serialize(&mut buf);
    assert_eq!(&buf[..n], &[0x81, 0x00, 0x09, 0x02, 0x07]);
}

#[test]
fn header_parse_serialize_round_trip() {
    let data = [0x8C, 0x34, 0x12, 0x06, 0x00, 0x04, 0x01, 0x05, 0x77, 0x01, 0x04, 0x01];
    let (h, n) = ApsHeader::parse(&data).unwrap();
    assert_eq!(n, data.len());
    let mut buf = [0u8; 16];
    let m = h.serialize(&mut buf);
    assert_eq!(&buf[..m], &data[..]);
}

#[test]
fn header_serialize_parse_round_trip() {
    let h = ApsHeader {
        frame_control: ApsFrameControl::parse(0x02),
        dst_endpoint: Some(0x0A),
        group_address: None,
        cluster_id: Some(0x0402),
        profile_id: Some(0x0104),
        src_endpoint: Some(0x01),
        aps_counter: 200,
        extended_header: None,
    };
    let mut buf = [0u8; 16];
    let n = h.serialize(&mut buf);
    let (back, m) = ApsHeader::parse(&buf[..n]).unwrap();
    assert_eq!(m, n);
    assert_eq!(back.dst_endpoint, h.dst_endpoint);
    assert_eq!(back.cluster_id, h.cluster_id);
    assert_eq!(back.profile_id, h.profile_id);
    assert_eq!(back.src_endpoint, h.src_endpoint);
    assert_eq!(back.aps_counter, h.aps_counter);
    assert_eq!(back.frame_control.serialize(), 0x02);
}
