//! Device templates: builders pre-configured with the role, endpoint,
//! device ID and clusters of common Home Automation devices.
//!
//! Every template has one endpoint, number 1, in the Home Automation
//! profile (0x0104), with server clusters only.

use vstd::prelude::*;
use crate::types::DeviceType;
use crate::runtime::builder::{DeviceBuilder, EndpointBuilder, EndpointSpec};

verus! {

/// Home Automation profile ID.
const HA_PROFILE: u16 = 0x0104;

/// Endpoint 1 of the Home Automation profile with device ID `device_id`
/// and the server clusters `servers`.
pub open spec fn ha_endpoint(device_id: u16, servers: Seq<u16>) -> EndpointSpec {
    EndpointSpec {
        endpoint: 1,
        profile_id: 0x0104,
        device_id,
        device_version: 1,
        server_clusters: servers,
        client_clusters: Seq::empty(),
    }
}

/// A temperature sensor (HA device ID 0x0302), an end device.
///
/// Server clusters of endpoint 1: Basic (0x0000), Power Configuration (0x0001), Identify (0x0003),
/// Temperature Measurement (0x0402).
pub fn temperature_sensor<M>(mac: M) -> (b: DeviceBuilder<M>)
    ensures
        b.spec_mac() == mac,
        b.spec_device_type() == DeviceType::EndDevice,
        b.spec_endpoints() == seq![ha_endpoint(0x0302, seq![0x0000u16, 0x0001, 0x0003, 0x0402])],
{
    let configure = |ep: EndpointBuilder| -> (r: EndpointBuilder)
        ensures
            r@ == ep@.with_server(0x0000).with_server(0x0001).with_server(0x0003).with_server(0x0402),
        {
            ep
                .cluster_server(0x0000)
                .cluster_server(0x0001)
                .cluster_server(0x0003)
                .cluster_server(0x0402)
        };
    let b = DeviceBuilder::new(mac).device_type(DeviceType::EndDevice).endpoint(1, HA_PROFILE, 0x0302, configure);
    assert(EndpointSpec::initial(1, 0x0104, 0x0302).with_server(0x0000).with_server(0x0001).with_server(0x0003).with_server(0x0402) == ha_endpoint(0x0302, seq![0x0000u16, 0x0001, 0x0003, 0x0402])) by {
        assert(EndpointSpec::initial(1, 0x0104, 0x0302).with_server(0x0000).with_server(0x0001).with_server(0x0003).with_server(0x0402).server_clusters =~= seq![0x0000u16, 0x0001, 0x0003, 0x0402]);
    }
    assert(b.spec_endpoints() =~= seq![ha_endpoint(0x0302, seq![0x0000u16, 0x0001, 0x0003, 0x0402])]);
    b
}

/// A temperature + humidity sensor (HA device ID 0x0302), an end device.
///
/// Server clusters of endpoint 1: Basic, Power Configuration, Identify, Temperature Measurement (0x0402),
/// Relative Humidity (0x0405).
pub fn temperature_humidity_sensor<M>(mac: M) -> (b: DeviceBuilder<M>)
    ensures
        b.spec_mac() == mac,
        b.spec_device_type() == DeviceType::EndDevice,
        b.spec_endpoints() == seq![ha_endpoint(0x0302, seq![0x0000u16, 0x0001, 0x0003, 0x0402, 0x0405])],
{
    let configure = |ep: EndpointBuilder| -> (r: EndpointBuilder)
        ensures
            r@ == ep@.with_server(0x0000).with_server(0x0001).with_server(0x0003).with_server(0x0402).with_server(0x0405),
        {
            ep
                .cluster_server(0x0000)
                .cluster_server(0x0001)
                .cluster_server(0x0003)
                .cluster_server(0x0402)
                .cluster_server(0x0405)
        };
    let b = DeviceBuilder::new(mac).device_type(DeviceType::EndDevice).endpoint(1, HA_PROFILE, 0x0302, configure);
    assert(EndpointSpec::initial(1, 0x0104, 0x0302).with_server(0x0000).with_server(0x0001).with_server(0x0003).with_server(0x0402).with_server(0x0405) == ha_endpoint(0x0302, seq![0x0000u16, 0x0001, 0x0003, 0x0402, 0x0405])) by {
        assert(EndpointSpec::initial(1, 0x0104, 0x0302).with_server(0x0000).with_server(0x0001).with_server(0x0003).with_server(0x0402).with_server(0x0405).server_clusters =~= seq![0x0000u16, 0x0001, 0x0003, 0x0402, 0x0405]);
    }
    assert(b.spec_endpoints() =~= seq![ha_endpoint(0x0302, seq![0x0000u16, 0x0001, 0x0003, 0x0402, 0x0405])]);
    b
}

/// A on/off light (HA device ID 0x0100), a router.
///
/// Server clusters of endpoint 1: Basic, Identify, Groups (0x0004), Scenes (0x0005), On/Off (0x0006).
pub fn on_off_light<M>(mac: M) -> (b: DeviceBuilder<M>)
    ensures
        b.spec_mac() == mac,
        b.spec_device_type() == DeviceType::Router,
        b.spec_endpoints() == seq![ha_endpoint(0x0100, seq![0x0000u16, 0x0003, 0x0004, 0x0005, 0x0006])],
{
    let configure = |ep: EndpointBuilder| -> (r: EndpointBuilder)
        ensures
            r@ == ep@.with_server(0x0000).with_server(0x0003).with_server(0x0004).with_server(0x0005).with_server(0x0006),
        {
            ep
                .cluster_server(0x0000)
                .cluster_server(0x0003)
                .cluster_server(0x0004)
                .cluster_server(0x0005)
                .cluster_server(0x0006)
        };
    let b = DeviceBuilder::new(mac).device_type(DeviceType::Router).endpoint(1, HA_PROFILE, 0x0100, configure);
    assert(EndpointSpec::initial(1, 0x0104, 0x0100).with_server(0x0000).with_server(0x0003).with_server(0x0004).with_server(0x0005).with_server(0x0006) == ha_endpoint(0x0100, seq![0x0000u16, 0x0003, 0x0004, 0x0005, 0x0006])) by {
        assert(EndpointSpec::initial(1, 0x0104, 0x0100).with_server(0x0000).with_server(0x0003).with_server(0x0004).with_server(0x0005).with_server(0x0006).server_clusters =~= seq![0x0000u16, 0x0003, 0x0004, 0x0005, 0x0006]);
    }
    assert(b.spec_endpoints() =~= seq![ha_endpoint(0x0100, seq![0x0000u16, 0x0003, 0x0004, 0x0005, 0x0006])]);
    b
}

/// A dimmable light (HA device ID 0x0101), a router.
///
/// Server clusters of endpoint 1: Basic, Identify, Groups, Scenes, On/Off, Level Control (0x0008).
pub fn dimmable_light<M>(mac: M) -> (b: DeviceBuilder<M>)
    ensures
        b.spec_mac() == mac,
        b.spec_device_type() == DeviceType::Router,
        b.spec_endpoints() == seq![ha_endpoint(0x0101, seq![0x0000u16, 0x0003, 0x0004, 0x0005, 0x0006, 0x0008])],
{
    let configure = |ep: EndpointBuilder| -> (r: EndpointBuilder)
        ensures
            r@ == ep@.with_server(0x0000).with_server(0x0003).with_server(0x0004).with_server(0x0005).with_server(0x0006).with_server(0x0008),
        {
            ep
                .cluster_server(0x0000)
                .cluster_server(0x0003)
                .cluster_server(0x0004)
                .cluster_server(0x0005)
                .cluster_server(0x0006)
                .cluster_server(0x0008)
        };
    let b = DeviceBuilder::new(mac).device_type(DeviceType::Router).endpoint(1, HA_PROFILE, 0x0101, configure);
    assert(EndpointSpec::initial(1, 0x0104, 0x0101).with_server(0x0000).with_server(0x0003).with_server(0x0004).with_server(0x0005).with_server(0x0006).with_server(0x0008) == ha_endpoint(0x0101, seq![0x0000u16, 0x0003, 0x0004, 0x0005, 0x0006, 0x0008])) by {
        assert(EndpointSpec::initial(1, 0x0104, 0x0101).with_server(0x0000).with_server(0x0003).with_server(0x0004).with_server(0x0005).with_server(0x0006).with_server(0x0008).server_clusters =~= seq![0x0000u16, 0x0003, 0x0004, 0x0005, 0x0006, 0x0008]);
    }
    assert(b.spec_endpoints() =~= seq![ha_endpoint(0x0101, seq![0x0000u16, 0x0003, 0x0004, 0x0005, 0x0006, 0x0008])]);
    b
}

/// A color temperature light (HA device ID 0x010C), a router.
///
/// Server clusters of endpoint 1: Basic, Identify, Groups, Scenes, On/Off, Level Control,
/// Color Control (0x0300).
pub fn color_temperature_light<M>(mac: M) -> (b: DeviceBuilder<M>)
    ensures
        b.spec_mac() == mac,
        b.spec_device_type() == DeviceType::Router,
        b.spec_endpoints() == seq![ha_endpoint(0x010C, seq![0x0000u16, 0x0003, 0x0004, 0x0005, 0x0006, 0x0008, 0x0300])],
{
    let configure = |ep: EndpointBuilder| -> (r: EndpointBuilder)
        ensures
            r@ == ep@.with_server(0x0000).with_server(0x0003).with_server(0x0004).with_server(0x0005).with_server(0x0006).with_server(0x0008).with_server(0x0300),
        {
            ep
                .cluster_server(0x0000)
                .cluster_server(0x0003)
                .cluster_server(0x0004)
                .cluster_server(0x0005)
                .cluster_server(0x0006)
                .cluster_server(0x0008)
                .cluster_server(0x0300)
        };
    let b = DeviceBuilder::new(mac).device_type(DeviceType::Router).endpoint(1, HA_PROFILE, 0x010C, configure);
    assert(EndpointSpec::initial(1, 0x0104, 0x010C).with_server(0x0000).with_server(0x0003).with_server(0x0004).with_server(0x0005).with_server(0x0006).with_server(0x0008).with_server(0x0300) == ha_endpoint(0x010C, seq![0x0000u16, 0x0003, 0x0004, 0x0005, 0x0006, 0x0008, 0x0300])) by {
        assert(EndpointSpec::initial(1, 0x0104, 0x010C).with_server(0x0000).with_server(0x0003).with_server(0x0004).with_server(0x0005).with_server(0x0006).with_server(0x0008).with_server(0x0300).server_clusters =~= seq![0x0000u16, 0x0003, 0x0004, 0x0005, 0x0006, 0x0008, 0x0300]);
    }
    assert(b.spec_endpoints() =~= seq![ha_endpoint(0x010C, seq![0x0000u16, 0x0003, 0x0004, 0x0005, 0x0006, 0x0008, 0x0300])]);
    b
}

/// A contact sensor / IAS zone (HA device ID 0x0402), an end device.
///
/// Server clusters of endpoint 1: Basic, Power Configuration, Identify, IAS Zone (0x0500).
pub fn contact_sensor<M>(mac: M) -> (b: DeviceBuilder<M>)
    ensures
        b.spec_mac() == mac,
        b.spec_device_type() == DeviceType::EndDevice,
        b.spec_endpoints() == seq![ha_endpoint(0x0402, seq![0x0000u16, 0x0001, 0x0003, 0x0500])],
{
    let configure = |ep: EndpointBuilder| -> (r: EndpointBuilder)
        ensures
            r@ == ep@.with_server(0x0000).with_server(0x0001).with_server(0x0003).with_server(0x0500),
        {
            ep
                .cluster_server(0x0000)
                .cluster_server(0x0001)
                .cluster_server(0x0003)
                .cluster_server(0x0500)
        };
    let b = DeviceBuilder::new(mac).device_type(DeviceType::EndDevice).endpoint(1, HA_PROFILE, 0x0402, configure);
    assert(EndpointSpec::initial(1, 0x0104, 0x0402).with_server(0x0000).with_server(0x0001).with_server(0x0003).with_server(0x0500) == ha_endpoint(0x0402, seq![0x0000u16, 0x0001, 0x0003, 0x0500])) by {
        assert(EndpointSpec::initial(1, 0x0104, 0x0402).with_server(0x0000).with_server(0x0001).with_server(0x0003).with_server(0x0500).server_clusters =~= seq![0x0000u16, 0x0001, 0x0003, 0x0500]);
    }
    assert(b.spec_endpoints() =~= seq![ha_endpoint(0x0402, seq![0x0000u16, 0x0001, 0x0003, 0x0500])]);
    b
}

/// A occupancy sensor (HA device ID 0x0107), an end device.
///
/// Server clusters of endpoint 1: Basic, Power Configuration, Identify, Occupancy Sensing (0x0406).
pub fn occupancy_sensor<M>(mac: M) -> (b: DeviceBuilder<M>)
    ensures
        b.spec_mac() == mac,
        b.spec_device_type() == DeviceType::EndDevice,
        b.spec_endpoints() == seq![ha_endpoint(0x0107, seq![0x0000u16, 0x0001, 0x0003, 0x0406])],
{
    let configure = |ep: EndpointBuilder| -> (r: EndpointBuilder)
        ensures
            r@ == ep@.with_server(0x0000).with_server(0x0001).with_server(0x0003).with_server(0x0406),
        {
            ep
                .cluster_server(0x0000)
                .cluster_server(0x0001)
                .cluster_server(0x0003)
                .cluster_server(0x0406)
        };
    let b = DeviceBuilder::new(mac).device_type(DeviceType::EndDevice).endpoint(1, HA_PROFILE, 0x0107, configure);
    assert(EndpointSpec::initial(1, 0x0104, 0x0107).with_server(0x0000).with_server(0x0001).with_server(0x0003).with_server(0x0406) == ha_endpoint(0x0107, seq![0x0000u16, 0x0001, 0x0003, 0x0406])) by {
        assert(EndpointSpec::initial(1, 0x0104, 0x0107).with_server(0x0000).with_server(0x0001).with_server(0x0003).with_server(0x0406).server_clusters =~= seq![0x0000u16, 0x0001, 0x0003, 0x0406]);
    }
    assert(b.spec_endpoints() =~= seq![ha_endpoint(0x0107, seq![0x0000u16, 0x0001, 0x0003, 0x0406])]);
    b
}

/// A smart plug / on-off outlet (HA device ID 0x0009), a router.
///
/// Server clusters of endpoint 1: Basic, Identify, Groups, Scenes, On/Off, Electrical Measurement (0x0B04).
pub fn smart_plug<M>(mac: M) -> (b: DeviceBuilder<M>)
    ensures
        b.spec_mac() == mac,
        b.spec_device_type() == DeviceType::Router,
        b.spec_endpoints() == seq![ha_endpoint(0x0009, seq![0x0000u16, 0x0003, 0x0004, 0x0005, 0x0006, 0x0B04])],
{
    let configure = |ep: EndpointBuilder| -> (r: EndpointBuilder)
        ensures
            r@ == ep@.with_server(0x0000).with_server(0x0003).with_server(0x0004).with_server(0x0005).with_server(0x0006).with_server(0x0B04),
        {
            ep
                .cluster_server(0x0000)
                .cluster_server(0x0003)
                .cluster_server(0x0004)
                .cluster_server(0x0005)
                .cluster_server(0x0006)
                .cluster_server(0x0B04)
        };
    let b = DeviceBuilder::new(mac).device_type(DeviceType::Router).endpoint(1, HA_PROFILE, 0x0009, configure);
    assert(EndpointSpec::initial(1, 0x0104, 0x0009).with_server(0x0000).with_server(0x0003).with_server(0x0004).with_server(0x0005).with_server(0x0006).with_server(0x0B04) == ha_endpoint(0x0009, seq![0x0000u16, 0x0003, 0x0004, 0x0005, 0x0006, 0x0B04])) by {
        assert(EndpointSpec::initial(1, 0x0104, 0x0009).with_server(0x0000).with_server(0x0003).with_server(0x0004).with_server(0x0005).with_server(0x0006).with_server(0x0B04).server_clusters =~= seq![0x0000u16, 0x0003, 0x0004, 0x0005, 0x0006, 0x0B04]);
    }
    assert(b.spec_endpoints() =~= seq![ha_endpoint(0x0009, seq![0x0000u16, 0x0003, 0x0004, 0x0005, 0x0006, 0x0B04])]);
    b
}

/// A thermostat (HA device ID 0x0301), a router.
///
/// Server clusters of endpoint 1: Basic, Identify, Groups, Thermostat (0x0201), Temperature Measurement
/// (0x0402, the local temperature).
pub fn thermostat<M>(mac: M) -> (b: DeviceBuilder<M>)
    ensures
        b.spec_mac() == mac,
        b.spec_device_type() == DeviceType::Router,
        b.spec_endpoints() == seq![ha_endpoint(0x0301, seq![0x0000u16, 0x0003, 0x0004, 0x0201, 0x0402])],
{
    let configure = |ep: EndpointBuilder| -> (r: EndpointBuilder)
        ensures
            r@ == ep@.with_server(0x0000).with_server(0x0003).with_server(0x0004).with_server(0x0201).with_server(0x0402),
        {
            ep
                .cluster_server(0x0000)
                .cluster_server(0x0003)
                .cluster_server(0x0004)
                .cluster_server(0x0201)
                .cluster_server(0x0402)
        };
    let b = DeviceBuilder::new(mac).device_type(DeviceType::Router).endpoint(1, HA_PROFILE, 0x0301, configure);
    assert(EndpointSpec::initial(1, 0x0104, 0x0301).with_server(0x0000).with_server(0x0003).with_server(0x0004).with_server(0x0201).with_server(0x0402) == ha_endpoint(0x0301, seq![0x0000u16, 0x0003, 0x0004, 0x0201, 0x0402])) by {
        assert(EndpointSpec::initial(1, 0x0104, 0x0301).with_server(0x0000).with_server(0x0003).with_server(0x0004).with_server(0x0201).with_server(0x0402).server_clusters =~= seq![0x0000u16, 0x0003, 0x0004, 0x0201, 0x0402]);
    }
    assert(b.spec_endpoints() =~= seq![ha_endpoint(0x0301, seq![0x0000u16, 0x0003, 0x0004, 0x0201, 0x0402])]);
    b
}

} // verus!
