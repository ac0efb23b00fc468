//! Fluent description of a device: its role and its endpoints with their
//! clusters.

use vstd::prelude::*;
use crate::types::DeviceType;

verus! {

/// Most endpoints a device can have.
pub const MAX_ENDPOINTS: usize = 8;

/// Most server (or client) clusters an endpoint can have.
pub const MAX_CLUSTERS: usize = 16;

/// What an endpoint is made of.
pub struct EndpointSpec {
    pub endpoint: u8,
    pub profile_id: u16,
    pub device_id: u16,
    pub device_version: u8,
    pub server_clusters: Seq<u16>,
    pub client_clusters: Seq<u16>,
}

impl EndpointSpec {
    /// A new endpoint: no clusters, device version 1.
    pub open spec fn initial(endpoint: u8, profile_id: u16, device_id: u16) -> EndpointSpec {
        EndpointSpec {
            endpoint,
            profile_id,
            device_id,
            device_version: 1,
            server_clusters: Seq::empty(),
            client_clusters: Seq::empty(),
        }
    }

    /// `self` with server cluster `id` added, when there is room.
    pub open spec fn with_server(self, id: u16) -> EndpointSpec {
        if self.server_clusters.len() < MAX_CLUSTERS {
            EndpointSpec { server_clusters: self.server_clusters.push(id), ..self }
        } else {
            self
        }
    }

    /// `self` with client cluster `id` added, when there is room.
    pub open spec fn with_client(self, id: u16) -> EndpointSpec {
        if self.client_clusters.len() < MAX_CLUSTERS {
            EndpointSpec { client_clusters: self.client_clusters.push(id), ..self }
        } else {
            self
        }
    }
}

/// Builds the description of one endpoint.
pub struct EndpointBuilder {
    endpoint: u8,
    profile_id: u16,
    device_id: u16,
    device_version: u8,
    server_clusters: Vec<u16>,
    client_clusters: Vec<u16>,
}

impl View for EndpointBuilder {
    type V = EndpointSpec;

    closed spec fn view(&self) -> EndpointSpec {
        EndpointSpec {
            endpoint: self.endpoint,
            profile_id: self.profile_id,
            device_id: self.device_id,
            device_version: self.device_version,
            server_clusters: self.server_clusters@,
            client_clusters: self.client_clusters@,
        }
    }
}

impl EndpointBuilder {
    /// A new endpoint with no clusters and device version 1.
    pub fn new(endpoint: u8, profile_id: u16, device_id: u16) -> (r: Self)
        ensures
            r@ == EndpointSpec::initial(endpoint, profile_id, device_id),
    {
        EndpointBuilder {
            endpoint,
            profile_id,
            device_id,
            device_version: 1,
            server_clusters: Vec::new(),
            client_clusters: Vec::new(),
        }
    }

    /// Add a server-side cluster (one this endpoint implements); ignored
    /// when the endpoint already has [`MAX_CLUSTERS`] of them.
    pub fn cluster_server(self, id: u16) -> (r: Self)
        ensures
            r@ == self@.with_server(id),
    {
        let mut b = self;
        if b.server_clusters.len() < MAX_CLUSTERS {
            b.server_clusters.push(id);
        }
        b
    }

    /// Add a client-side cluster (one this endpoint sends commands to);
    /// ignored when the endpoint already has [`MAX_CLUSTERS`] of them.
    pub fn cluster_client(self, id: u16) -> (r: Self)
        ensures
            r@ == self@.with_client(id),
    {
        let mut b = self;
        if b.client_clusters.len() < MAX_CLUSTERS {
            b.client_clusters.push(id);
        }
        b
    }

    /// The endpoint number.
    pub fn endpoint_id(&self) -> (r: u8)
        ensures
            r == self@.endpoint,
    {
        self.endpoint
    }

    /// The application profile.
    pub fn profile_id(&self) -> (r: u16)
        ensures
            r == self@.profile_id,
    {
        self.profile_id
    }

    /// The device ID.
    pub fn device_id(&self) -> (r: u16)
        ensures
            r == self@.device_id,
    {
        self.device_id
    }

    /// The server clusters, in the order they were added.
    pub fn server_clusters(&self) -> (r: &[u16])
        ensures
            r@ == self@.server_clusters,
    {
        self.server_clusters.as_slice()
    }

    /// The client clusters, in the order they were added.
    pub fn client_clusters(&self) -> (r: &[u16])
        ensures
            r@ == self@.client_clusters,
    {
        self.client_clusters.as_slice()
    }

    /// Set the device version.
    pub fn device_version(self, version: u8) -> (r: Self)
        ensures
            r@ == (EndpointSpec { device_version: version, ..self@ }),
    {
        let mut b = self;
        b.device_version = version;
        b
    }
}

/// Builds the description of a device around its MAC driver.
pub struct DeviceBuilder<M> {
    mac: M,
    device_type: DeviceType,
    endpoints: Vec<EndpointBuilder>,
}

impl<M> DeviceBuilder<M> {
    /// The MAC driver.
    pub closed spec fn spec_mac(&self) -> M {
        self.mac
    }

    /// The device's role.
    pub closed spec fn spec_device_type(&self) -> DeviceType {
        self.device_type
    }

    /// The endpoints, in the order they were added.
    pub closed spec fn spec_endpoints(&self) -> Seq<EndpointSpec> {
        self.endpoints@.map_values(|e: EndpointBuilder| e@)
    }

    /// A device of type end device with no endpoints.
    pub fn new(mac: M) -> (r: Self)
        ensures
            r.spec_mac() == mac,
            r.spec_device_type() == DeviceType::EndDevice,
            r.spec_endpoints() == Seq::<EndpointSpec>::empty(),
    {
        let r = DeviceBuilder { mac, device_type: DeviceType::EndDevice, endpoints: Vec::new() };
        assert(r.spec_endpoints() =~= Seq::<EndpointSpec>::empty());
        r
    }

    /// The device's role.
    pub fn role(&self) -> (r: DeviceType)
        ensures
            r == self.spec_device_type(),
    {
        self.device_type
    }

    /// The endpoints, in the order they were added.
    pub fn endpoints(&self) -> (r: &[EndpointBuilder])
        ensures
            r@.map_values(|e: EndpointBuilder| e@) == self.spec_endpoints(),
    {
        self.endpoints.as_slice()
    }

    /// Set the device's role.
    pub fn device_type(self, device_type: DeviceType) -> (r: Self)
        ensures
            r.spec_mac() == self.spec_mac(),
            r.spec_device_type() == device_type,
            r.spec_endpoints() == self.spec_endpoints(),
    {
        let mut b = self;
        b.device_type = device_type;
        b
    }

    /// Add an endpoint, described by `configure` from a new endpoint with
    /// no clusters; ignored when the device already has [`MAX_ENDPOINTS`].
    pub fn endpoint<Fc: FnOnce(EndpointBuilder) -> EndpointBuilder>(
        self,
        endpoint: u8,
        profile_id: u16,
        device_id: u16,
        configure: Fc,
    ) -> (r: Self)
        requires
            forall|e: EndpointBuilder| e@ == EndpointSpec::initial(endpoint, profile_id, device_id) ==> configure.requires((e,)),
        ensures
            r.spec_mac() == self.spec_mac(),
            r.spec_device_type() == self.spec_device_type(),
            exists|e: EndpointBuilder, out: EndpointBuilder|
                #![trigger configure.ensures((e,), out)]
                e@ == EndpointSpec::initial(endpoint, profile_id, device_id) && configure.ensures((e,), out)
                    && r.spec_endpoints() == if self.spec_endpoints().len() < MAX_ENDPOINTS {
                    self.spec_endpoints().push(out@)
                } else {
                    self.spec_endpoints()
                },
    {
        let mut b = self;
        let e = EndpointBuilder::new(endpoint, profile_id, device_id);
        let ghost e0 = e;
        let out = configure(e);
        let ghost old_eps = b.spec_endpoints();
        if b.endpoints.len() < MAX_ENDPOINTS {
            let ghost out0 = out;
            b.endpoints.push(out);
            assert(b.spec_endpoints() =~= old_eps.push(out0@));
            assert(configure.ensures((e0,), out0));
        } else {
            assert(configure.ensures((e0,), out));
        }
        b
    }
}

} // verus!
