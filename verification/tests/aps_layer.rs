use zigbee_stack::aps::layer::ApsLayer;

#[test]
fn aps_counter_wraps() {
    let mut aps = ApsLayer::new(1u8, 2u8, 3u8, 4u8, 5u8);
    assert_eq!(aps.next_aps_counter(), 0);
    assert_eq!(aps.next_aps_counter(), 1);
    for _ in 0..253 {
        aps.next_aps_counter();
    }
    assert_eq!(aps.next_aps_counter(), 255);
    assert_eq!(aps.next_aps_counter(), 0);
    assert_eq!(*aps.nwk(), 1);
    assert_eq!(*aps.aib(), 2);
    assert_eq!(*aps.binding_table(), 3);
    assert_eq!(*aps.group_table(), 4);
    assert_eq!(*aps.security(), 5);
    *aps.nwk_mut() = 9;
    assert_eq!(*aps.nwk(), 9);
}
