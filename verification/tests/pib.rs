use zigbee_stack::mac::pib::{scan_duration_symbols, scan_duration_us, PibAttribute, PibPayload, PibValue};
use zigbee_stack::types::{PanId, ShortAddress};

#[test]
fn scan_durations() {
    assert_eq!(scan_duration_symbols(0), 1920);
    assert_eq!(scan_duration_symbols(3), 8640);
    assert_eq!(scan_duration_symbols(5), 31680);
    assert_eq!(scan_duration_symbols(2), 4800);
    assert_eq!(scan_duration_symbols(4), 16320);
    assert_eq!(scan_duration_symbols(8), 247296);
    assert_eq!(scan_duration_us(8), 3_956_736);
    assert_eq!(scan_duration_us(0), 30720);
    assert_eq!(scan_duration_us(3), 138240);
    assert_eq!(scan_duration_us(14), 960 * 16385 * 16);
}

#[test]
fn pib_attribute_codes() {
    assert_eq!(PibAttribute::MacShortAddress.code(), 0x53);
    assert_eq!(PibAttribute::MacBeaconPayload.code(), 0x45);
    assert_eq!(PibAttribute::MacBeaconPayloadLength.code(), 0x46);
    assert_eq!(PibAttribute::MacAutoRequest.code(), 0x42);
}

#[test]
fn pib_payload_bounds() {
    assert_eq!(PibPayload::new().as_slice(), &[] as &[u8]);
    let p = PibPayload::from_slice(&[1, 2, 3]).unwrap();
    assert_eq!(p.as_slice(), &[1, 2, 3]);
    assert!(PibPayload::from_slice(&[0u8; 52]).is_some());
    assert!(PibPayload::from_slice(&[0u8; 53]).is_none());
}

#[test]
fn pib_value_accessors() {
    assert_eq!(PibValue::Bool(true).as_bool(), Some(true));
    assert_eq!(PibValue::U8(3).as_bool(), None);
    assert_eq!(PibValue::U8(3).as_u8(), Some(3));
    assert_eq!(PibValue::U16(0x1234).as_u16(), Some(0x1234));
    assert_eq!(PibValue::U32(7).as_u32(), Some(7));
    assert_eq!(PibValue::U32(7).as_u16(), None);
    assert_eq!(PibValue::ShortAddress(ShortAddress(5)).as_short_address(), Some(ShortAddress(5)));
    assert_eq!(PibValue::PanId(PanId(9)).as_pan_id(), Some(PanId(9)));
    assert_eq!(PibValue::ExtendedAddress([1; 8]).as_extended_address(), Some([1; 8]));
    assert_eq!(PibValue::I8(-3).as_extended_address(), None);
}

#[test]
fn pib_payload_clone_and_default() {
    let p = PibPayload::from_slice(&[9, 8, 7]).unwrap();
    let q = p.clone();
    assert_eq!(q.as_slice(), &[9, 8, 7]);
    assert_eq!(PibPayload::default().as_slice(), &[] as &[u8]);
}
