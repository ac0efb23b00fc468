use zigbee_stack::types::{AttributeId, ClusterDirection, CommandId};
use zigbee_stack::zcl::discover::{
    process_discover_commands, process_discover_dyn, process_discover_extended_dyn, AttributeDescriptor,
    DiscoverAttributesRequest, DiscoverCommandsRequest, ZclDataType,
};
use zigbee_stack::zcl::foundation::FoundationCommandId;
use zigbee_stack::zcl::frame::{ZclFrame, ZclFrameError, ZclFrameHeader, ZclFrameType};

#[test]
fn frame_type_from_u8() {
    assert_eq!(ZclFrameType::from_u8(0x00), Some(ZclFrameType::Global));
    assert_eq!(ZclFrameType::from_u8(0x11), Some(ZclFrameType::ClusterSpecific));
    assert_eq!(ZclFrameType::from_u8(0x02), None);
    assert_eq!(ZclFrameType::from_u8(0x03), None);
}

#[test]
fn frame_control_build_and_read() {
    let fc = ZclFrameHeader::build_frame_control(
        ZclFrameType::ClusterSpecific,
        true,
        ClusterDirection::ServerToClient,
        true,
    );
    assert_eq!(fc, 0x01 | 0x04 | 0x08 | 0x10);
    let h = ZclFrameHeader { frame_control: fc, manufacturer_code: Some(0x1234), seq_number: 1, command_id: CommandId(0) };
    assert_eq!(h.frame_type(), ZclFrameType::ClusterSpecific);
    assert!(h.is_manufacturer_specific());
    assert_eq!(h.direction(), ClusterDirection::ServerToClient);
    assert!(h.disable_default_response());
    let g = ZclFrameHeader::build_frame_control(ZclFrameType::Global, false, ClusterDirection::ClientToServer, false);
    assert_eq!(g, 0);
}

#[test]
fn parse_plain_frame() {
    let data = [0x18, 0x2A, 0x01, 0x00, 0x00, 0x00, 0x20, 0x05];
    let f = ZclFrame::parse(&data).unwrap();
    assert_eq!(f.header.frame_control, 0x18);
    assert_eq!(f.header.manufacturer_code, None);
    assert_eq!(f.header.seq_number, 0x2A);
    assert_eq!(f.header.command_id, CommandId(0x01));
    assert_eq!(f.payload.as_slice(), &[0x00, 0x00, 0x00, 0x20, 0x05]);
}

#[test]
fn parse_manufacturer_specific_frame() {
    let data = [0x05, 0x34, 0x12, 0x07, 0x42, 0xAA];
    let f = ZclFrame::parse(&data).unwrap();
    assert_eq!(f.header.manufacturer_code, Some(0x1234));
    assert_eq!(f.header.seq_number, 0x07);
    assert_eq!(f.header.command_id, CommandId(0x42));
    assert_eq!(f.payload.as_slice(), &[0xAA]);
}

#[test]
fn parse_errors() {
    assert_eq!(ZclFrame::parse(&[0x00, 0x01]).err(), Some(ZclFrameError::TooShort));
    assert_eq!(ZclFrame::parse(&[0x02, 0x01, 0x00]).err(), Some(ZclFrameError::InvalidFrameType));
    assert_eq!(ZclFrame::parse(&[0x07, 0x34, 0x12, 0x01, 0x00]).err(), Some(ZclFrameError::InvalidFrameType));
    assert_eq!(ZclFrame::parse(&[0x03]).err(), Some(ZclFrameError::TooShort));
    assert!(ZclFrame::parse(&[0x01, 0x01, 0x00]).is_ok());
    assert_eq!(ZclFrame::parse(&[0x04, 0x01, 0x02, 0x03]).err(), Some(ZclFrameError::TooShort));
    let big = [0u8; 3 + 129];
    assert_eq!(ZclFrame::parse(&big).err(), Some(ZclFrameError::PayloadTooLarge));
    let max = [0u8; 3 + 128];
    assert_eq!(ZclFrame::parse(&max).unwrap().payload.len(), 128);
}

#[test]
fn serialize_round_trip() {
    let data = [0x05, 0x34, 0x12, 0x07, 0x42, 0xAA, 0xBB];
    let f = ZclFrame::parse(&data).unwrap();
    let mut buf = [0u8; 16];
    let n = f.serialize(&mut buf).unwrap();
    assert_eq!(&buf[..n], &data[..]);
    let mut small = [0u8; 6];
    assert_eq!(f.serialize(&mut small).err(), Some(ZclFrameError::TooShort));
    assert_eq!(small, [0u8; 6]);
}

#[test]
fn constructors() {
    let g = ZclFrame::new_global(9, CommandId(0x0C), ClusterDirection::ClientToServer, true);
    assert_eq!(g.header.frame_control, 0x10);
    assert_eq!(g.header.seq_number, 9);
    assert!(g.payload.is_empty());
    let c = ZclFrame::new_cluster_specific(3, CommandId(0x01), ClusterDirection::ServerToClient, false);
    assert_eq!(c.header.frame_control, 0x09);
    assert_eq!(c.header.command_id, CommandId(0x01));
    let mut buf = [0u8; 3];
    assert_eq!(c.serialize(&mut buf), Ok(3));
    assert_eq!(buf, [0x09, 3, 0x01]);
}

#[test]
fn foundation_command_ids() {
    assert_eq!(FoundationCommandId::from_u8(0x00), Some(FoundationCommandId::ReadAttributes));
    assert_eq!(FoundationCommandId::from_u8(0x0D), Some(FoundationCommandId::DiscoverAttributesResponse));
    assert_eq!(FoundationCommandId::from_u8(0x0E), None);
    assert_eq!(FoundationCommandId::from_u8(0x10), None);
    assert_eq!(FoundationCommandId::from_u8(0x16), Some(FoundationCommandId::DiscoverAttributesExtendedResponse));
    assert_eq!(FoundationCommandId::from_u8(0x17), None);
    assert_eq!(FoundationCommandId::DiscoverCommandsGenerated.code(), 0x13);
}

fn desc(t: u8, r: bool, w: bool, p: bool) -> Option<AttributeDescriptor> {
    Some(AttributeDescriptor { data_type: ZclDataType(t), readable: r, writable: w, reportable: p })
}

fn store() -> Vec<(AttributeId, Option<AttributeDescriptor>)> {
    vec![
        (AttributeId(0x0000), desc(0x29, true, false, true)),
        (AttributeId(0x0001), desc(0x29, true, false, false)),
        (AttributeId(0x0002), None),
        (AttributeId(0x0003), desc(0x21, true, true, false)),
        (AttributeId(0x0010), desc(0x10, false, true, false)),
    ]
}

#[test]
fn discover_attributes_from_start() {
    let s = store();
    let req = DiscoverAttributesRequest { start_id: AttributeId(0x0001), max_results: 10 };
    let r = process_discover_dyn(&s, &req);
    assert!(r.complete);
    let ids: Vec<u16> = r.attributes.iter().map(|a| a.id.0).collect();
    assert_eq!(ids, vec![0x0001, 0x0003, 0x0010]);
    assert_eq!(r.attributes[1].data_type, ZclDataType(0x21));
}

#[test]
fn discover_attributes_limited() {
    let s = store();
    let req = DiscoverAttributesRequest { start_id: AttributeId(0x0000), max_results: 2 };
    let r = process_discover_dyn(&s, &req);
    assert!(!r.complete);
    assert_eq!(r.attributes.len(), 2);
    let mut buf = [0u8; 16];
    let n = r.serialize(&mut buf);
    assert_eq!(&buf[..n], &[0x00, 0x00, 0x00, 0x29, 0x01, 0x00, 0x29]);
    let mut tight = [0u8; 5];
    assert_eq!(r.serialize(&mut tight), 4);
    let mut empty: [u8; 0] = [];
    assert_eq!(r.serialize(&mut empty), 0);
}

#[test]
fn discover_attributes_extended_access_bits() {
    let s = store();
    let req = DiscoverAttributesRequest { start_id: AttributeId(0x0000), max_results: 10 };
    let r = process_discover_extended_dyn(&s, &req);
    assert!(r.complete);
    let acc: Vec<u8> = r.attributes.iter().map(|a| a.access_control).collect();
    assert_eq!(acc, vec![0x05, 0x01, 0x03, 0x02]);
    let mut buf = [0u8; 9];
    let n = r.serialize(&mut buf);
    assert_eq!(&buf[..n], &[0x01, 0x00, 0x00, 0x29, 0x05, 0x01, 0x00, 0x29, 0x01]);
}

#[test]
fn discover_attributes_request_codec() {
    let q = DiscoverAttributesRequest::parse(&[0x34, 0x12, 0x05]).unwrap();
    assert_eq!(q.start_id, AttributeId(0x1234));
    assert_eq!(q.max_results, 5);
    assert!(DiscoverAttributesRequest::parse(&[0x34, 0x12]).is_none());
    let mut buf = [0u8; 3];
    assert_eq!(q.serialize(&mut buf), 3);
    assert_eq!(buf, [0x34, 0x12, 0x05]);
    let mut small = [0u8; 2];
    assert_eq!(q.serialize(&mut small), 0);
}

#[test]
fn discover_commands() {
    let all = [0x00, 0x01, 0x02, 0x40, 0x41];
    let r = process_discover_commands(&all, 0x01, 3);
    assert!(!r.complete);
    assert_eq!(r.command_ids.as_slice(), &[0x01, 0x02, 0x40]);
    let r = process_discover_commands(&all, 0x02, 10);
    assert!(r.complete);
    assert_eq!(r.command_ids.as_slice(), &[0x02, 0x40, 0x41]);
    let mut buf = [0u8; 3];
    assert_eq!(r.serialize(&mut buf), 3);
    assert_eq!(buf, [0x01, 0x02, 0x40]);
}

#[test]
fn discover_commands_request_codec() {
    let q = DiscoverCommandsRequest::parse(&[0x10, 0x20]).unwrap();
    assert_eq!(q.start_command_id, 0x10);
    assert_eq!(q.max_results, 0x20);
    assert!(DiscoverCommandsRequest::parse(&[0x10]).is_none());
    let mut buf = [0u8; 4];
    assert_eq!(q.serialize(&mut buf), 2);
    assert_eq!(buf, [0x10, 0x20, 0, 0]);
}

#[test]
fn frame_clone_keeps_payload() {
    let f = ZclFrame::parse(&[0x00, 0x01, 0x0A, 0xDE, 0xAD, 0xBE, 0xEF]).unwrap();
    let g = f.clone();
    assert_eq!(g.payload.as_slice(), &[0xDE, 0xAD, 0xBE, 0xEF]);
    assert_eq!(g.header.command_id, CommandId(0x0A));
}

fn big_store(n: u16) -> Vec<(AttributeId, Option<AttributeDescriptor>)> {
    (0..n).map(|i| (AttributeId(i), desc(0x20, true, false, false))).collect()
}

#[test]
fn discover_attributes_more_than_sixteen_is_incomplete() {
    let s = big_store(17);
    let req = DiscoverAttributesRequest { start_id: AttributeId(0x0000), max_results: 20 };
    let r = process_discover_dyn(&s, &req);
    assert_eq!(r.attributes.len(), 16);
    assert!(!r.complete);
    assert_eq!(r.attributes[15].id, AttributeId(15));
    let r = process_discover_extended_dyn(&s, &req);
    assert_eq!(r.attributes.len(), 16);
    assert!(!r.complete);
}

#[test]
fn discover_attributes_exactly_sixteen_is_complete() {
    let s = big_store(16);
    let req = DiscoverAttributesRequest { start_id: AttributeId(0x0000), max_results: 20 };
    let r = process_discover_dyn(&s, &req);
    assert_eq!(r.attributes.len(), 16);
    assert!(r.complete);
    let r = process_discover_extended_dyn(&s, &req);
    assert_eq!(r.attributes.len(), 16);
    assert!(r.complete);
}

#[test]
fn discover_commands_more_than_thirty_two_is_incomplete() {
    let all: Vec<u8> = (0..40).collect();
    let r = process_discover_commands(&all, 0, 100);
    assert_eq!(r.command_ids.len(), 32);
    assert!(!r.complete);
    let r = process_discover_commands(&all[..32], 0, 100);
    assert_eq!(r.command_ids.len(), 32);
    assert!(r.complete);
}

#[test]
fn discover_extended_lists_what_discover_lists() {
    let s = store();
    for start in [0x0000u16, 0x0001, 0x0003, 0x0011] {
        for max in [0u8, 1, 2, 3, 10] {
            let req = DiscoverAttributesRequest { start_id: AttributeId(start), max_results: max };
            let plain = process_discover_dyn(&s, &req);
            let ext = process_discover_extended_dyn(&s, &req);
            assert_eq!(plain.complete, ext.complete);
            assert_eq!(plain.attributes.len(), ext.attributes.len());
            for (p, e) in plain.attributes.iter().zip(ext.attributes.iter()) {
                assert_eq!(p.id, e.id);
                assert_eq!(p.data_type, e.data_type);
                assert_eq!(e.access_control & 0xF8, 0);
            }
        }
    }
}
