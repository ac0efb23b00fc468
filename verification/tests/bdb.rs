use zigbee_stack::aps::layer::{ApsAddress, ApsAddressMode};
use zigbee_stack::bdb::finding_binding::{
    binding_step, create_binding_outcome, identify_query_frame, identify_query_outcome, identify_query_request,
    plan_bindings, profiles_compatible, target_created_bindings, target_step, BindingDst, SimpleDescriptor,
    TargetAction, TargetEvent,
};
use zigbee_stack::bdb::{BdbCommissioningStatus, BdbLayer, BdbStatus};
use zigbee_stack::types::ShortAddress;

const OURS: [u8; 8] = [1; 8];
const THEIRS: [u8; 8] = [2; 8];

fn desc(ep: u8, inputs: &[u16], outputs: &[u16]) -> SimpleDescriptor {
    SimpleDescriptor {
        endpoint: ep,
        profile_id: 0x0104,
        device_id: 0,
        device_version: 1,
        input_clusters: inputs.to_vec(),
        output_clusters: outputs.to_vec(),
    }
}

#[test]
fn status_codes() {
    assert_eq!(BdbStatus::Success.code(), 0x00);
    assert_eq!(BdbStatus::NoIdentifyResponse.code(), 0x07);
    assert_eq!(BdbStatus::BindingTableFull.code(), 0x08);
    assert_eq!(BdbStatus::Timeout.code(), 0x0B);
}

#[test]
fn identify_query_bytes() {
    // cluster-specific (0x01), client to server, default response disabled (0x10)
    assert_eq!(identify_query_frame(0x42), [0x11, 0x42, 0x01]);
}

#[test]
fn profile_matching() {
    assert!(profiles_compatible(0x0104, 0x0104));
    assert!(profiles_compatible(0xFFFF, 0x0104));
    assert!(profiles_compatible(0x0104, 0xFFFF));
    assert!(!profiles_compatible(0x0104, 0xC05E));
}

#[test]
fn bindings_planned_in_order() {
    // a switch (on/off and level client) and a light (on/off, level server; OTA client)
    let local = desc(1, &[0x0019], &[0x0006, 0x0008, 0x0300]);
    let remote = desc(11, &[0x0006, 0x0008], &[0x0019]);
    let plan = plan_bindings(&local, &remote, OURS, THEIRS, 0xFFFF);
    let clusters: Vec<u16> = plan.iter().map(|e| e.cluster_id).collect();
    assert_eq!(clusters, vec![0x0006, 0x0008, 0x0019]);
    for e in &plan {
        assert_eq!(e.src_addr, OURS);
        assert_eq!(e.src_endpoint, 1);
        match e.dst {
            BindingDst::Unicast { addr, endpoint } => {
                assert_eq!(addr, THEIRS);
                assert_eq!(endpoint, 11);
            }
            BindingDst::Group(_) => panic!("no group binding expected"),
        }
    }
    let with_group = plan_bindings(&local, &remote, OURS, THEIRS, 0x0007);
    assert_eq!(with_group.len(), 5);
    assert!(matches!(with_group[3].dst, BindingDst::Group(0x0007)));
    assert_eq!(with_group[3].cluster_id, 0x0006);
    assert_eq!(with_group[4].cluster_id, 0x0008);
    let none = plan_bindings(&local, &desc(2, &[0x0402], &[]), OURS, THEIRS, 0xFFFF);
    assert!(none.is_empty());
}

#[test]
fn binding_results() {
    assert_eq!(create_binding_outcome(false, false), Ok(()));
    assert_eq!(create_binding_outcome(true, false), Ok(()));
    assert_eq!(create_binding_outcome(false, true), Ok(()));
    assert_eq!(create_binding_outcome(true, true), Err(BdbStatus::BindingTableFull));
    assert_eq!(binding_step(2, Ok(())), Ok(3));
    assert_eq!(binding_step(2, Err(BdbStatus::BindingTableFull)), Err(BdbStatus::BindingTableFull));
    assert_eq!(binding_step(2, Err(BdbStatus::Timeout)), Ok(2));
    assert!(target_created_bindings(Ok(1)));
    assert!(!target_created_bindings(Ok(0)));
    assert!(!target_created_bindings(Err(BdbStatus::BindingTableFull)));
}

#[test]
fn layer_checks_and_status() {
    let mut bdb = BdbLayer::new((), 0u8);
    assert!(!bdb.is_on_network());
    assert_eq!(bdb.attributes().commissioning_group_id, 0xFFFF);
    assert_eq!(bdb.finding_binding_check(true), Err(BdbStatus::NotOnNetwork));
    assert_eq!(bdb.finding_binding_target(true), Err(BdbStatus::NotOnNetwork));
    bdb.attributes_mut().node_is_on_a_network = true;
    assert_eq!(bdb.finding_binding_check(false), Err(BdbStatus::NotPermitted));
    assert_eq!(bdb.finding_binding_check(true), Ok(()));
    assert_eq!(bdb.finish_finding_binding_initiator(false), Err(BdbStatus::NoIdentifyResponse));
    assert_eq!(bdb.attributes().commissioning_status, BdbCommissioningStatus::NoIdentifyQueryResponse);
    assert_eq!(bdb.finding_binding_target(false), Err(BdbStatus::NotPermitted));
    assert_eq!(bdb.attributes().commissioning_status, BdbCommissioningStatus::NoIdentifyQueryResponse);
    assert_eq!(bdb.finding_binding_target(true), Ok(180));
    assert_eq!(bdb.attributes().commissioning_status, BdbCommissioningStatus::Success);
    assert_eq!(bdb.finish_finding_binding_initiator(true), Ok(()));
    assert_eq!(*bdb.state(), 0u8);
}

#[test]
fn identify_query_request_fields() {
    let r = identify_query_request(0x42);
    assert_eq!(r.dst_addr_mode, ApsAddressMode::Short);
    assert_eq!(r.dst_address, ApsAddress::Short(ShortAddress(0xFFFD)));
    assert_eq!(r.dst_endpoint, 0xFF);
    assert_eq!(r.profile_id, 0x0104);
    assert_eq!(r.cluster_id, 0x0003);
    assert_eq!(r.src_endpoint, 0x01);
    assert_eq!(r.payload, [0x11, 0x42, 0x01]);
    assert_eq!(r.radius, 0);
    assert!(!r.tx_options.security_enabled && !r.tx_options.use_nwk_key && !r.tx_options.ack_request);
    assert!(!r.tx_options.fragmentation_permitted && !r.tx_options.include_extended_nonce);
    assert_eq!(identify_query_outcome(true), Ok(()));
    assert_eq!(identify_query_outcome(false), Err(BdbStatus::NotPermitted));
}

#[test]
fn target_steps() {
    assert_eq!(target_step(3, 0x0104, TargetEvent::DescriptorFailed), (3, TargetAction::NextEndpoint));
    assert_eq!(target_step(3, 0x0104, TargetEvent::Descriptor(0x0104)), (3, TargetAction::MatchAndBind));
    assert_eq!(target_step(3, 0x0104, TargetEvent::Descriptor(0xFFFF)), (3, TargetAction::MatchAndBind));
    assert_eq!(target_step(3, 0xFFFF, TargetEvent::Descriptor(0xC05E)), (3, TargetAction::MatchAndBind));
    assert_eq!(target_step(3, 0x0104, TargetEvent::Descriptor(0xC05E)), (3, TargetAction::NextEndpoint));
    assert_eq!(target_step(3, 0x0104, TargetEvent::Bound(2)), (5, TargetAction::NextEndpoint));
    assert_eq!(
        target_step(3, 0x0104, TargetEvent::BindFailed(BdbStatus::BindingTableFull)),
        (3, TargetAction::Fail(BdbStatus::BindingTableFull))
    );
}
