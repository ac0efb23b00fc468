use zigbee_stack::nwk::nib::{AddressAssignMethod, Nib};
use zigbee_stack::types::{PanId, ShortAddress};

#[test]
fn nib_defaults() {
    let n = Nib::new();
    assert_eq!(n.pan_id, PanId(0xFFFF));
    assert_eq!(n.network_address, ShortAddress(0xFFFF));
    assert_eq!(n.stack_profile, 0x02);
    assert_eq!(n.max_depth, 15);
    assert_eq!(n.max_routers, 5);
    assert_eq!(n.max_children, 20);
    assert_eq!(n.address_assign, AddressAssignMethod::Stochastic);
    assert_eq!(n.security_level, 5);
    assert!(n.security_enabled);
    assert_eq!(n.parent_address, ShortAddress(0xFFFF));
    assert_eq!(n.passive_ack_timeout, 500);
    let d = Nib::default();
    assert_eq!(d.broadcast_delivery_time, n.broadcast_delivery_time);
}

#[test]
fn nib_counters_wrap() {
    let mut n = Nib::new();
    assert_eq!(n.next_seq(), 0);
    assert_eq!(n.next_seq(), 1);
    n.sequence_number = 255;
    assert_eq!(n.next_seq(), 255);
    assert_eq!(n.sequence_number, 0);
    n.route_request_id = 255;
    assert_eq!(n.next_route_request_id(), 255);
    assert_eq!(n.next_route_request_id(), 0);
    n.outgoing_frame_counter = u32::MAX;
    assert_eq!(n.next_frame_counter(), u32::MAX);
    assert_eq!(n.outgoing_frame_counter, 0);
}
