use zigbee_stack::runtime::builder::{DeviceBuilder, EndpointBuilder, MAX_CLUSTERS, MAX_ENDPOINTS};
use zigbee_stack::runtime::templates::{
    color_temperature_light, contact_sensor, dimmable_light, occupancy_sensor, on_off_light, smart_plug,
    temperature_humidity_sensor, temperature_sensor, thermostat,
};
use zigbee_stack::types::DeviceType;

struct NoMac;

fn check(b: &DeviceBuilder<NoMac>, role: DeviceType, device_id: u16, servers: &[u16]) {
    assert_eq!(b.role(), role);
    let eps = b.endpoints();
    assert_eq!(eps.len(), 1);
    assert_eq!(eps[0].endpoint_id(), 1);
    assert_eq!(eps[0].profile_id(), 0x0104);
    assert_eq!(eps[0].device_id(), device_id);
    assert_eq!(eps[0].server_clusters(), servers);
    assert!(eps[0].client_clusters().is_empty());
}

#[test]
fn sensor_templates() {
    check(&temperature_sensor(NoMac), DeviceType::EndDevice, 0x0302, &[0x0000, 0x0001, 0x0003, 0x0402]);
    check(
        &temperature_humidity_sensor(NoMac),
        DeviceType::EndDevice,
        0x0302,
        &[0x0000, 0x0001, 0x0003, 0x0402, 0x0405],
    );
    check(&contact_sensor(NoMac), DeviceType::EndDevice, 0x0402, &[0x0000, 0x0001, 0x0003, 0x0500]);
    check(&occupancy_sensor(NoMac), DeviceType::EndDevice, 0x0107, &[0x0000, 0x0001, 0x0003, 0x0406]);
}

#[test]
fn router_templates() {
    check(&on_off_light(NoMac), DeviceType::Router, 0x0100, &[0x0000, 0x0003, 0x0004, 0x0005, 0x0006]);
    check(&dimmable_light(NoMac), DeviceType::Router, 0x0101, &[0x0000, 0x0003, 0x0004, 0x0005, 0x0006, 0x0008]);
    check(
        &color_temperature_light(NoMac),
        DeviceType::Router,
        0x010C,
        &[0x0000, 0x0003, 0x0004, 0x0005, 0x0006, 0x0008, 0x0300],
    );
    check(&smart_plug(NoMac), DeviceType::Router, 0x0009, &[0x0000, 0x0003, 0x0004, 0x0005, 0x0006, 0x0B04]);
    check(&thermostat(NoMac), DeviceType::Router, 0x0301, &[0x0000, 0x0003, 0x0004, 0x0201, 0x0402]);
}

#[test]
fn builder_defaults_and_limits() {
    let b = DeviceBuilder::new(NoMac);
    assert_eq!(b.role(), DeviceType::EndDevice);
    assert!(b.endpoints().is_empty());
    let mut b = b.device_type(DeviceType::Coordinator);
    for i in 0..10u8 {
        b = b.endpoint(i + 1, 0x0104, 0x0005, |ep| ep.cluster_client(0x0006));
    }
    assert_eq!(b.role(), DeviceType::Coordinator);
    assert_eq!(b.endpoints().len(), MAX_ENDPOINTS);
    assert_eq!(b.endpoints()[7].endpoint_id(), 8);
    assert_eq!(b.endpoints()[0].client_clusters(), &[0x0006]);

    let mut ep = EndpointBuilder::new(3, 0xC05E, 0x0210);
    for c in 0..20u16 {
        ep = ep.cluster_server(c);
    }
    assert_eq!(ep.server_clusters().len(), MAX_CLUSTERS);
    assert_eq!(ep.server_clusters()[15], 15);
}
