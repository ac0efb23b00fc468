//! Finding & Binding (EZ-Mode) decisions.
//!
//! The initiator broadcasts an Identify Query, reads the simple descriptors
//! of the targets that answer, and binds its clusters to theirs: its
//! output clusters to their input clusters, its input clusters to their
//! output clusters, and, with a commissioning group, its output clusters to
//! the group. The exchanges with other devices happen outside; this module
//! decides what is sent and what each answer leads to.

use vstd::prelude::*;
use crate::types::{ClusterDirection, IeeeAddress, ShortAddress};
use crate::aps::layer::{ApsAddress, ApsAddressMode, ApsTxOptions};
use crate::zcl::frame::{ZclFrameHeader, ZclFrameType, spec_build_frame_control};
use crate::bdb::{BdbLayer, BdbStatus, BdbCommissioningStatus, BdbAttributes};

verus! {

/// ZCL Identify cluster ID.
pub const CLUSTER_IDENTIFY: u16 = 0x0003;

/// Identify Query command ID (cluster-specific, client to server).
pub const CMD_IDENTIFY_QUERY: u8 = 0x01;

/// Finding & Binding window in seconds (`bdbcMinCommissioningTime`).
pub const FB_WINDOW_SECONDS: u16 = 180;

/// The ZCL Identify Query frame with sequence number `seq`: frame control
/// (cluster-specific, client to server, default response disabled), the
/// sequence number and the command ID, with no payload.
pub fn identify_query_frame(seq: u8) -> (r: [u8; 3])
    ensures
        r@ == seq![
            spec_build_frame_control(ZclFrameType::ClusterSpecific, false, ClusterDirection::ClientToServer, true),
            seq,
            CMD_IDENTIFY_QUERY,
        ],
{
    let fc = ZclFrameHeader::build_frame_control(
        ZclFrameType::ClusterSpecific,
        false,
        ClusterDirection::ClientToServer,
        true,
    );
    let r = [fc, seq, CMD_IDENTIFY_QUERY];
    assert(r@ =~= seq![fc, seq, CMD_IDENTIFY_QUERY]);
    r
}

/// The APSDE-DATA request that broadcasts the Identify Query.
#[derive(Debug, Clone, Copy)]
pub struct IdentifyBroadcast {
    pub dst_addr_mode: ApsAddressMode,
    pub dst_address: ApsAddress,
    pub dst_endpoint: u8,
    pub profile_id: u16,
    pub cluster_id: u16,
    pub src_endpoint: u8,
    /// The ZCL Identify Query frame.
    pub payload: [u8; 3],
    pub tx_options: ApsTxOptions,
    pub radius: u8,
}

/// The Identify Query with sequence number `seq`, broadcast to every
/// device whose receiver is on when idle (0xFFFD), on all endpoints (0xFF),
/// on the Home Automation profile, from endpoint 1, with no APS options and
/// the default radius (0).
pub fn identify_query_request(seq: u8) -> (r: IdentifyBroadcast)
    ensures
        r.dst_addr_mode == ApsAddressMode::Short,
        r.dst_address == ApsAddress::Short(ShortAddress(0xFFFD)),
        r.dst_endpoint == 0xFF,
        r.profile_id == 0x0104,
        r.cluster_id == CLUSTER_IDENTIFY,
        r.src_endpoint == 0x01,
        r.payload@ == seq![0x11u8, seq, 0x01u8],
        r.tx_options == (ApsTxOptions {
            security_enabled: false,
            use_nwk_key: false,
            ack_request: false,
            fragmentation_permitted: false,
            include_extended_nonce: false,
        }),
        r.radius == 0,
{
    let payload = identify_query_frame(seq);
    assert((0x01u8 | 0u8 | 0u8 | 0x10u8) == 0x11u8) by (bit_vector);
    IdentifyBroadcast {
        dst_addr_mode: ApsAddressMode::Short,
        dst_address: ApsAddress::Short(ShortAddress(0xFFFD)),
        dst_endpoint: 0xFF,
        profile_id: 0x0104,
        cluster_id: CLUSTER_IDENTIFY,
        src_endpoint: 0x01,
        payload,
        tx_options: ApsTxOptions {
            security_enabled: false,
            use_nwk_key: false,
            ack_request: false,
            fragmentation_permitted: false,
            include_extended_nonce: false,
        },
        radius: 0,
    }
}

/// What sending the Identify Query leads to: a failed broadcast is
/// `NotPermitted`.
pub fn identify_query_outcome(sent: bool) -> (r: Result<(), BdbStatus>)
    ensures
        r == if sent {
            Ok::<(), BdbStatus>(())
        } else {
            Err::<(), BdbStatus>(BdbStatus::NotPermitted)
        },
{
    if sent {
        Ok(())
    } else {
        Err(BdbStatus::NotPermitted)
    }
}

/// Two application profiles can be bound when equal or when either is the
/// wildcard 0xFFFF.
pub open spec fn spec_profiles_compatible(local: u16, remote: u16) -> bool {
    local == remote || local == 0xFFFF || remote == 0xFFFF
}

/// Whether endpoints of profiles `local` and `remote` can be bound.
pub fn profiles_compatible(local: u16, remote: u16) -> (r: bool)
    ensures
        r == spec_profiles_compatible(local, remote),
{
    !(local != remote && local != 0xFFFF && remote != 0xFFFF)
}

/// The simple descriptor of an endpoint, as far as binding reads it.
pub struct SimpleDescriptor {
    pub endpoint: u8,
    pub profile_id: u16,
    pub device_id: u16,
    pub device_version: u8,
    /// Server (input) clusters.
    pub input_clusters: Vec<u16>,
    /// Client (output) clusters.
    pub output_clusters: Vec<u16>,
}

/// Where a binding sends to.
#[derive(Debug, Clone, Copy)]
pub enum BindingDst {
    /// An endpoint of a device.
    Unicast { addr: IeeeAddress, endpoint: u8 },
    /// A group.
    Group(u16),
}

/// A binding: traffic of `cluster_id` from endpoint `src_endpoint` of
/// `src_addr` goes to `dst`.
#[derive(Debug, Clone, Copy)]
pub struct BindingEntry {
    pub src_addr: IeeeAddress,
    pub src_endpoint: u8,
    pub cluster_id: u16,
    pub dst: BindingDst,
}

impl BindingEntry {
    /// Binding to an endpoint of a device.
    pub open spec fn spec_unicast(src: IeeeAddress, src_ep: u8, cluster: u16, dst: IeeeAddress, dst_ep: u8) -> BindingEntry {
        BindingEntry {
            src_addr: src,
            src_endpoint: src_ep,
            cluster_id: cluster,
            dst: BindingDst::Unicast { addr: dst, endpoint: dst_ep },
        }
    }

    /// Binding to a group.
    pub open spec fn spec_group(src: IeeeAddress, src_ep: u8, cluster: u16, group: u16) -> BindingEntry {
        BindingEntry { src_addr: src, src_endpoint: src_ep, cluster_id: cluster, dst: BindingDst::Group(group) }
    }

    /// Binding to an endpoint of a device.
    pub fn unicast(src: IeeeAddress, src_ep: u8, cluster: u16, dst: IeeeAddress, dst_ep: u8) -> (r: BindingEntry)
        ensures
            r == Self::spec_unicast(src, src_ep, cluster, dst, dst_ep),
    {
        BindingEntry {
            src_addr: src,
            src_endpoint: src_ep,
            cluster_id: cluster,
            dst: BindingDst::Unicast { addr: dst, endpoint: dst_ep },
        }
    }

    /// Binding to a group.
    pub fn group(src: IeeeAddress, src_ep: u8, cluster: u16, group: u16) -> (r: BindingEntry)
        ensures
            r == Self::spec_group(src, src_ep, cluster, group),
    {
        BindingEntry { src_addr: src, src_endpoint: src_ep, cluster_id: cluster, dst: BindingDst::Group(group) }
    }
}

/// Unicast bindings from endpoint `src_ep` of `src` to endpoint `dst_ep`
/// of `dst`, one for each of `ours` (in order) that occurs in `theirs`.
pub open spec fn unicast_plan(
    ours: Seq<u16>,
    theirs: Seq<u16>,
    src: IeeeAddress,
    src_ep: u8,
    dst: IeeeAddress,
    dst_ep: u8,
) -> Seq<BindingEntry>
    decreases ours.len(),
{
    if ours.len() == 0 {
        Seq::empty()
    } else {
        let prev = unicast_plan(ours.drop_last(), theirs, src, src_ep, dst, dst_ep);
        if theirs.contains(ours.last()) {
            prev.push(BindingEntry::spec_unicast(src, src_ep, ours.last(), dst, dst_ep))
        } else {
            prev
        }
    }
}

/// Group bindings from endpoint `src_ep` of `src` to `group`, one for each
/// of `ours` (in order) that occurs in `theirs`.
pub open spec fn group_plan(ours: Seq<u16>, theirs: Seq<u16>, src: IeeeAddress, src_ep: u8, group: u16) -> Seq<BindingEntry>
    decreases ours.len(),
{
    if ours.len() == 0 {
        Seq::empty()
    } else {
        let prev = group_plan(ours.drop_last(), theirs, src, src_ep, group);
        if theirs.contains(ours.last()) {
            prev.push(BindingEntry::spec_group(src, src_ep, ours.last(), group))
        } else {
            prev
        }
    }
}

/// The bindings that Finding & Binding tries for a matching pair of
/// endpoints, in order: our output clusters that they take as input; our
/// input clusters that they produce as output; and, when the commissioning
/// group is not 0xFFFF, our output clusters that they take as input, bound
/// to the group.
pub open spec fn binding_plan(
    local_ep: u8,
    local_in: Seq<u16>,
    local_out: Seq<u16>,
    remote_ep: u8,
    remote_in: Seq<u16>,
    remote_out: Seq<u16>,
    our_ieee: IeeeAddress,
    remote_ieee: IeeeAddress,
    group_id: u16,
) -> Seq<BindingEntry> {
    unicast_plan(local_out, remote_in, our_ieee, local_ep, remote_ieee, remote_ep)
        + unicast_plan(local_in, remote_out, our_ieee, local_ep, remote_ieee, remote_ep)
        + if group_id != 0xFFFF {
        group_plan(local_out, remote_in, our_ieee, local_ep, group_id)
    } else {
        Seq::empty()
    }
}

/// The unicast plan binds exactly the clusters of `ours` that occur in `theirs`.
proof fn lemma_unicast_plan(ours: Seq<u16>, theirs: Seq<u16>, src: IeeeAddress, src_ep: u8, dst: IeeeAddress, dst_ep: u8)
    ensures
        forall|k: int| 0 <= k < unicast_plan(ours, theirs, src, src_ep, dst, dst_ep).len() ==> {
            let e = #[trigger] unicast_plan(ours, theirs, src, src_ep, dst, dst_ep)[k];
            &&& e == BindingEntry::spec_unicast(src, src_ep, e.cluster_id, dst, dst_ep)
            &&& ours.contains(e.cluster_id)
            &&& theirs.contains(e.cluster_id)
        },
        forall|c: u16| ours.contains(c) && theirs.contains(c) ==> unicast_plan(ours, theirs, src, src_ep, dst, dst_ep).contains(
            BindingEntry::spec_unicast(src, src_ep, c, dst, dst_ep)),
    decreases ours.len(),
{
    if ours.len() > 0 {
        let prev_ours = ours.drop_last();
        lemma_unicast_plan(prev_ours, theirs, src, src_ep, dst, dst_ep);
        let prev = unicast_plan(prev_ours, theirs, src, src_ep, dst, dst_ep);
        let p = unicast_plan(ours, theirs, src, src_ep, dst, dst_ep);
        let last = ours.last();
        assert forall|k: int| 0 <= k < p.len() implies {
            let e = #[trigger] p[k];
            &&& e == BindingEntry::spec_unicast(src, src_ep, e.cluster_id, dst, dst_ep)
            &&& ours.contains(e.cluster_id)
            &&& theirs.contains(e.cluster_id)
        } by {
            if k < prev.len() {
                assert(p[k] == prev[k]);
                let j = choose|j: int| 0 <= j < prev_ours.len() && prev_ours[j] == prev[k].cluster_id;
                assert(ours[j] == prev_ours[j]);
            } else {
                assert(ours[ours.len() - 1] == last);
            }
        }
        assert forall|c: u16| ours.contains(c) && theirs.contains(c) implies p.contains(
            BindingEntry::spec_unicast(src, src_ep, c, dst, dst_ep)) by {
            let j = choose|j: int| 0 <= j < ours.len() && ours[j] == c;
            if j < prev_ours.len() {
                assert(prev_ours[j] == c);
                let k = choose|k: int| 0 <= k < prev.len() && prev[k] == BindingEntry::spec_unicast(src, src_ep, c, dst, dst_ep);
                assert(p[k] == prev[k]);
            } else {
                assert(p[p.len() - 1] == BindingEntry::spec_unicast(src, src_ep, c, dst, dst_ep));
            }
        }
    }
}

/// The group plan binds exactly the clusters of `ours` that occur in `theirs`.
proof fn lemma_group_plan(ours: Seq<u16>, theirs: Seq<u16>, src: IeeeAddress, src_ep: u8, group: u16)
    ensures
        forall|k: int| 0 <= k < group_plan(ours, theirs, src, src_ep, group).len() ==> {
            let e = #[trigger] group_plan(ours, theirs, src, src_ep, group)[k];
            &&& e == BindingEntry::spec_group(src, src_ep, e.cluster_id, group)
            &&& ours.contains(e.cluster_id)
            &&& theirs.contains(e.cluster_id)
        },
        forall|c: u16| ours.contains(c) && theirs.contains(c) ==> group_plan(ours, theirs, src, src_ep, group).contains(
            BindingEntry::spec_group(src, src_ep, c, group)),
    decreases ours.len(),
{
    if ours.len() > 0 {
        let prev_ours = ours.drop_last();
        lemma_group_plan(prev_ours, theirs, src, src_ep, group);
        let prev = group_plan(prev_ours, theirs, src, src_ep, group);
        let p = group_plan(ours, theirs, src, src_ep, group);
        let last = ours.last();
        assert forall|k: int| 0 <= k < p.len() implies {
            let e = #[trigger] p[k];
            &&& e == BindingEntry::spec_group(src, src_ep, e.cluster_id, group)
            &&& ours.contains(e.cluster_id)
            &&& theirs.contains(e.cluster_id)
        } by {
            if k < prev.len() {
                assert(p[k] == prev[k]);
                let j = choose|j: int| 0 <= j < prev_ours.len() && prev_ours[j] == prev[k].cluster_id;
                assert(ours[j] == prev_ours[j]);
            } else {
                assert(ours[ours.len() - 1] == last);
            }
        }
        assert forall|c: u16| ours.contains(c) && theirs.contains(c) implies p.contains(
            BindingEntry::spec_group(src, src_ep, c, group)) by {
            let j = choose|j: int| 0 <= j < ours.len() && ours[j] == c;
            if j < prev_ours.len() {
                assert(prev_ours[j] == c);
                let k = choose|k: int| 0 <= k < prev.len() && prev[k] == BindingEntry::spec_group(src, src_ep, c, group);
                assert(p[k] == prev[k]);
            } else {
                assert(p[p.len() - 1] == BindingEntry::spec_group(src, src_ep, c, group));
            }
        }
    }
}

/// Finding & Binding binds what matches, and only that: every planned
/// binding goes from our endpoint, either unicast to their endpoint for a
/// cluster that is our output and their input or our input and their
/// output, or to the commissioning group (when one is set) for a cluster
/// that is our output and their input; and every cluster that is our
/// output and their input, or our input and their output, gets a unicast
/// binding, and, with a commissioning group, every cluster that is our
/// output and their input gets a group binding.
pub proof fn law_binding_plan_matches(
    local_ep: u8,
    local_in: Seq<u16>,
    local_out: Seq<u16>,
    remote_ep: u8,
    remote_in: Seq<u16>,
    remote_out: Seq<u16>,
    our_ieee: IeeeAddress,
    remote_ieee: IeeeAddress,
    group_id: u16,
)
    ensures
        forall|k: int| 0 <= k < binding_plan(local_ep, local_in, local_out, remote_ep, remote_in, remote_out, our_ieee, remote_ieee, group_id).len() ==> {
            let e = #[trigger] binding_plan(local_ep, local_in, local_out, remote_ep, remote_in, remote_out, our_ieee, remote_ieee, group_id)[k];
            ||| e == BindingEntry::spec_unicast(our_ieee, local_ep, e.cluster_id, remote_ieee, remote_ep) && (
                (local_out.contains(e.cluster_id) && remote_in.contains(e.cluster_id)) || (local_in.contains(e.cluster_id)
                    && remote_out.contains(e.cluster_id)))
            ||| group_id != 0xFFFF && e == BindingEntry::spec_group(our_ieee, local_ep, e.cluster_id, group_id)
                && local_out.contains(e.cluster_id) && remote_in.contains(e.cluster_id)
        },
        forall|c: u16| local_out.contains(c) && remote_in.contains(c) ==> binding_plan(local_ep, local_in, local_out, remote_ep, remote_in, remote_out, our_ieee, remote_ieee, group_id).contains(
            BindingEntry::spec_unicast(our_ieee, local_ep, c, remote_ieee, remote_ep)),
        forall|c: u16| local_in.contains(c) && remote_out.contains(c) ==> binding_plan(local_ep, local_in, local_out, remote_ep, remote_in, remote_out, our_ieee, remote_ieee, group_id).contains(
            BindingEntry::spec_unicast(our_ieee, local_ep, c, remote_ieee, remote_ep)),
        forall|c: u16| group_id != 0xFFFF && local_out.contains(c) && remote_in.contains(c) ==> binding_plan(local_ep, local_in, local_out, remote_ep, remote_in, remote_out, our_ieee, remote_ieee, group_id).contains(
            BindingEntry::spec_group(our_ieee, local_ep, c, group_id)),
{
    let u1 = unicast_plan(local_out, remote_in, our_ieee, local_ep, remote_ieee, remote_ep);
    let u2 = unicast_plan(local_in, remote_out, our_ieee, local_ep, remote_ieee, remote_ep);
    let g = if group_id != 0xFFFF { group_plan(local_out, remote_in, our_ieee, local_ep, group_id) } else { Seq::empty() };
    let p = binding_plan(local_ep, local_in, local_out, remote_ep, remote_in, remote_out, our_ieee, remote_ieee, group_id);
    lemma_unicast_plan(local_out, remote_in, our_ieee, local_ep, remote_ieee, remote_ep);
    lemma_unicast_plan(local_in, remote_out, our_ieee, local_ep, remote_ieee, remote_ep);
    lemma_group_plan(local_out, remote_in, our_ieee, local_ep, group_id);
    assert(p == u1 + u2 + g);
    assert forall|k: int| 0 <= k < p.len() implies {
        let e = #[trigger] p[k];
        ||| e == BindingEntry::spec_unicast(our_ieee, local_ep, e.cluster_id, remote_ieee, remote_ep) && (
            (local_out.contains(e.cluster_id) && remote_in.contains(e.cluster_id)) || (local_in.contains(e.cluster_id)
                && remote_out.contains(e.cluster_id)))
        ||| group_id != 0xFFFF && e == BindingEntry::spec_group(our_ieee, local_ep, e.cluster_id, group_id)
            && local_out.contains(e.cluster_id) && remote_in.contains(e.cluster_id)
    } by {
        if k < u1.len() {
            assert(p[k] == u1[k]);
        } else if k < u1.len() + u2.len() {
            assert(p[k] == u2[k - u1.len()]);
        } else {
            assert(p[k] == g[k - u1.len() - u2.len()]);
        }
    }
    assert forall|c: u16| local_out.contains(c) && remote_in.contains(c) implies p.contains(
        BindingEntry::spec_unicast(our_ieee, local_ep, c, remote_ieee, remote_ep)) by {
        let k = choose|k: int| 0 <= k < u1.len() && u1[k] == BindingEntry::spec_unicast(our_ieee, local_ep, c, remote_ieee, remote_ep);
        assert(p[k] == u1[k]);
    }
    assert forall|c: u16| local_in.contains(c) && remote_out.contains(c) implies p.contains(
        BindingEntry::spec_unicast(our_ieee, local_ep, c, remote_ieee, remote_ep)) by {
        let k = choose|k: int| 0 <= k < u2.len() && u2[k] == BindingEntry::spec_unicast(our_ieee, local_ep, c, remote_ieee, remote_ep);
        assert(p[u1.len() + k] == u2[k]);
    }
    assert forall|c: u16| group_id != 0xFFFF && local_out.contains(c) && remote_in.contains(c) implies p.contains(
        BindingEntry::spec_group(our_ieee, local_ep, c, group_id)) by {
        let k = choose|k: int| 0 <= k < g.len() && g[k] == BindingEntry::spec_group(our_ieee, local_ep, c, group_id);
        assert(p[u1.len() + u2.len() + k] == g[k]);
    }
}

/// Whether `x` occurs in `s`.
fn contains_cluster(s: &Vec<u16>, x: u16) -> (r: bool)
    ensures
        r == s@.contains(x),
{
    let mut j: usize = 0;
    while j < s.len()
        invariant
            j <= s@.len(),
            forall|k: int| 0 <= k < j ==> s@[k] != x,
        decreases s.len() - j,
    {
        if s[j] == x {
            assert(s@[j as int] == x);
            return true;
        }
        j += 1;
    }
    false
}

/// Append to `plan` the bindings of `ours` that occur in `theirs`: unicast
/// to endpoint `dst_ep` of `dst`, or to `group` when one is given.
fn push_matches(
    plan: &mut Vec<BindingEntry>,
    ours: &Vec<u16>,
    theirs: &Vec<u16>,
    src: IeeeAddress,
    src_ep: u8,
    dst: IeeeAddress,
    dst_ep: u8,
    group: Option<u16>,
)
    ensures
        final(plan)@ == old(plan)@ + match group {
            Some(g) => group_plan(ours@, theirs@, src, src_ep, g),
            None => unicast_plan(ours@, theirs@, src, src_ep, dst, dst_ep),
        },
{
    let ghost start = plan@;
    let mut i: usize = 0;
    assert(ours@.take(0) =~= Seq::<u16>::empty());
    assert(start + Seq::<BindingEntry>::empty() =~= start);
    while i < ours.len()
        invariant
            i <= ours@.len(),
            plan@ == start + match group {
                Some(g) => group_plan(ours@.take(i as int), theirs@, src, src_ep, g),
                None => unicast_plan(ours@.take(i as int), theirs@, src, src_ep, dst, dst_ep),
            },
        decreases ours.len() - i,
    {
        let c = ours[i];
        let ghost prev_plan = plan@;
        proof {
            let t = ours@.take(i as int + 1);
            assert(t.drop_last() =~= ours@.take(i as int));
            assert(t.last() == c);
        }
        if contains_cluster(theirs, c) {
            let entry = match group {
                Some(g) => BindingEntry::group(src, src_ep, c, g),
                None => BindingEntry::unicast(src, src_ep, c, dst, dst_ep),
            };
            plan.push(entry);
            assert(plan@ =~= prev_plan.push(entry));
            proof {
                let t = ours@.take(i as int + 1);
                match group {
                    Some(g) => {
                        assert(start + group_plan(t, theirs@, src, src_ep, g) =~= (start + group_plan(
                            ours@.take(i as int), theirs@, src, src_ep, g)).push(entry));
                    },
                    None => {
                        assert(start + unicast_plan(t, theirs@, src, src_ep, dst, dst_ep) =~= (start + unicast_plan(
                            ours@.take(i as int), theirs@, src, src_ep, dst, dst_ep)).push(entry));
                    },
                }
            }
        }
        i += 1;
    }
    assert(ours@.take(ours@.len() as int) =~= ours@);
}

/// The bindings to try between our endpoint `local` and their endpoint
/// `remote` (see [`binding_plan`]).
pub fn plan_bindings(
    local: &SimpleDescriptor,
    remote: &SimpleDescriptor,
    our_ieee: IeeeAddress,
    remote_ieee: IeeeAddress,
    group_id: u16,
) -> (r: Vec<BindingEntry>)
    ensures
        r@ == binding_plan(
            local.endpoint,
            local.input_clusters@,
            local.output_clusters@,
            remote.endpoint,
            remote.input_clusters@,
            remote.output_clusters@,
            our_ieee,
            remote_ieee,
            group_id,
        ),
{
    let mut plan: Vec<BindingEntry> = Vec::new();
    push_matches(&mut plan, &local.output_clusters, &remote.input_clusters, our_ieee, local.endpoint, remote_ieee, remote.endpoint, None);
    push_matches(&mut plan, &local.input_clusters, &remote.output_clusters, our_ieee, local.endpoint, remote_ieee, remote.endpoint, None);
    if group_id != 0xFFFF {
        push_matches(&mut plan, &local.output_clusters, &remote.input_clusters, our_ieee, local.endpoint, remote_ieee, remote.endpoint, Some(group_id));
    }
    let ghost u1 = unicast_plan(local.output_clusters@, remote.input_clusters@, our_ieee, local.endpoint, remote_ieee, remote.endpoint);
    let ghost u2 = unicast_plan(local.input_clusters@, remote.output_clusters@, our_ieee, local.endpoint, remote_ieee, remote.endpoint);
    assert(Seq::<BindingEntry>::empty() + u1 =~= u1);
    if group_id == 0xFFFF {
        assert(u1 + u2 + Seq::<BindingEntry>::empty() =~= u1 + u2);
    }
    plan
}

/// Outcome of installing a binding in the local binding table: it fails
/// with `BindingTableFull` when the table refused it and is full; any other
/// refusal still counts as installed.
pub fn create_binding_outcome(add_failed: bool, table_full: bool) -> (r: Result<(), BdbStatus>)
    ensures
        r == if add_failed && table_full {
            Err::<(), BdbStatus>(BdbStatus::BindingTableFull)
        } else {
            Ok::<(), BdbStatus>(())
        },
{
    if add_failed && table_full {
        return Err(BdbStatus::BindingTableFull);
    }
    Ok(())
}

/// Bindings counted after one more attempt: one more on success; a full
/// binding table ends the matching with that error; any other failure is
/// passed over.
pub fn binding_step(count: usize, attempt: Result<(), BdbStatus>) -> (r: Result<usize, BdbStatus>)
    requires
        count < usize::MAX,
    ensures
        r == match attempt {
            Ok(()) => Ok::<usize, BdbStatus>((count + 1) as usize),
            Err(BdbStatus::BindingTableFull) => Err::<usize, BdbStatus>(BdbStatus::BindingTableFull),
            Err(_) => Ok::<usize, BdbStatus>(count),
        },
{
    match attempt {
        Ok(()) => Ok(count + 1),
        Err(BdbStatus::BindingTableFull) => Err(BdbStatus::BindingTableFull),
        Err(_) => Ok(count),
    }
}

/// What the exchange about one endpoint of an identifying target brought.
#[derive(Debug, Clone, Copy)]
pub enum TargetEvent {
    /// The simple descriptor request failed.
    DescriptorFailed,
    /// The endpoint's simple descriptor arrived, with this profile.
    Descriptor(u16),
    /// Matching and binding with the endpoint created this many bindings.
    Bound(usize),
    /// Matching and binding with the endpoint failed with this status.
    BindFailed(BdbStatus),
}

/// What to do next while processing an identifying target.
#[derive(Debug, Clone, Copy, PartialEq, Eq, Structural)]
pub enum TargetAction {
    /// Go on with the next endpoint (the target is done after the last).
    NextEndpoint,
    /// Match the clusters of the endpoint just described and bind them.
    MatchAndBind,
    /// Stop processing the target with this status.
    Fail(BdbStatus),
}

/// The bindings counted so far and the next action after `event`, while
/// processing a target for our endpoint of profile `local_profile`.
pub open spec fn spec_target_step(count: nat, local_profile: u16, event: TargetEvent) -> (nat, TargetAction) {
    match event {
        TargetEvent::DescriptorFailed => (count, TargetAction::NextEndpoint),
        TargetEvent::Descriptor(p) => if spec_profiles_compatible(local_profile, p) {
            (count, TargetAction::MatchAndBind)
        } else {
            (count, TargetAction::NextEndpoint)
        },
        TargetEvent::Bound(n) => ((count + n) as nat, TargetAction::NextEndpoint),
        TargetEvent::BindFailed(e) => (count, TargetAction::Fail(e)),
    }
}

/// Processing a target: the count only grows, by the bindings an endpoint
/// made; an endpoint is bound exactly when its descriptor arrived with our
/// profile, or either profile is the wildcard 0xFFFF; and processing fails
/// exactly on a failed binding, with its status.
pub proof fn law_target_step(count: nat, local_profile: u16, event: TargetEvent)
    ensures
        ({
            let (c, action) = spec_target_step(count, local_profile, event);
            &&& c == count + match event {
                TargetEvent::Bound(n) => n as nat,
                _ => 0nat,
            }
            &&& (action == TargetAction::MatchAndBind) <==> (event matches TargetEvent::Descriptor(p) && (p == local_profile
                || p == 0xFFFF || local_profile == 0xFFFF))
            &&& forall|e: BdbStatus| (action == TargetAction::Fail(e)) <==> (event == TargetEvent::BindFailed(e))
            &&& (action == TargetAction::NextEndpoint) <==> !(action == TargetAction::MatchAndBind || action is Fail)
        }),
{
}

/// One step of processing an identifying target: an endpoint whose
/// descriptor cannot be read, or whose profile does not match ours, is
/// passed over; a matching one is bound, and the bindings made are added
/// to the count; a failed binding ends the target with its status.
pub fn target_step(count: usize, local_profile: u16, event: TargetEvent) -> (r: (usize, TargetAction))
    requires
        event matches TargetEvent::Bound(n) ==> count + n <= usize::MAX,
    ensures
        (r.0 as nat, r.1) == spec_target_step(count as nat, local_profile, event),
{
    match event {
        TargetEvent::DescriptorFailed => (count, TargetAction::NextEndpoint),
        TargetEvent::Descriptor(p) => {
            if profiles_compatible(local_profile, p) {
                (count, TargetAction::MatchAndBind)
            } else {
                (count, TargetAction::NextEndpoint)
            }
        },
        TargetEvent::Bound(n) => (count + n, TargetAction::NextEndpoint),
        TargetEvent::BindFailed(e) => (count, TargetAction::Fail(e)),
    }
}

/// Whether processing a target created at least one binding.
pub fn target_created_bindings(result: Result<usize, BdbStatus>) -> (r: bool)
    ensures
        r == (result matches Ok(n) && n > 0),
{
    match result {
        Ok(count) => count > 0,
        Err(_) => false,
    }
}

impl<Z, S> BdbLayer<Z, S> {
    /// Whether Finding & Binding can start on an endpoint: the node must be
    /// on a network, and the endpoint must have a local simple descriptor.
    pub fn finding_binding_check(&self, has_local_descriptor: bool) -> (r: Result<(), BdbStatus>)
        ensures
            !self.spec_attributes().node_is_on_a_network ==> r == Err::<(), BdbStatus>(BdbStatus::NotOnNetwork),
            self.spec_attributes().node_is_on_a_network && !has_local_descriptor ==> r == Err::<(), BdbStatus>(
                BdbStatus::NotPermitted),
            self.spec_attributes().node_is_on_a_network && has_local_descriptor ==> r is Ok,
    {
        if !self.attributes().node_is_on_a_network {
            return Err(BdbStatus::NotOnNetwork);
        }
        if !has_local_descriptor {
            return Err(BdbStatus::NotPermitted);
        }
        Ok(())
    }

    /// Conclude Finding & Binding as initiator: success when some target
    /// got a binding; otherwise no identify response. The commissioning
    /// status attribute records the outcome.
    pub fn finish_finding_binding_initiator(&mut self, any_binding_created: bool) -> (r: Result<(), BdbStatus>)
        ensures
            any_binding_created ==> r is Ok && final(self).spec_attributes().commissioning_status
                == BdbCommissioningStatus::Success,
            !any_binding_created ==> r == Err::<(), BdbStatus>(BdbStatus::NoIdentifyResponse)
                && final(self).spec_attributes().commissioning_status == BdbCommissioningStatus::NoIdentifyQueryResponse,
            final(self).spec_attributes().node_is_on_a_network == old(self).spec_attributes().node_is_on_a_network,
            final(self).spec_attributes().commissioning_group_id == old(self).spec_attributes().commissioning_group_id,
            final(self).spec_zdo() == old(self).spec_zdo(),
            final(self).spec_state() == old(self).spec_state(),
    {
        let attrs = self.attributes_mut();
        if any_binding_created {
            attrs.commissioning_status = BdbCommissioningStatus::Success;
            Ok(())
        } else {
            attrs.commissioning_status = BdbCommissioningStatus::NoIdentifyQueryResponse;
            Err(BdbStatus::NoIdentifyResponse)
        }
    }

    /// Enter Finding & Binding as target on an endpoint (whose local simple
    /// descriptor exists or not): checked as [`Self::finding_binding_check`],
    /// then the commissioning status is success. On success the result is
    /// the Identify time, in seconds, to set on the endpoint's Identify
    /// cluster: the minimum commissioning time ([`FB_WINDOW_SECONDS`]).
    pub fn finding_binding_target(&mut self, has_local_descriptor: bool) -> (r: Result<u16, BdbStatus>)
        ensures
            r == match old(self).finding_binding_check_result(has_local_descriptor) {
                Ok(()) => Ok::<u16, BdbStatus>(FB_WINDOW_SECONDS),
                Err(e) => Err::<u16, BdbStatus>(e),
            },
            r is Ok ==> final(self).spec_attributes() == (BdbAttributes {
                commissioning_status: BdbCommissioningStatus::Success,
                ..old(self).spec_attributes()
            }),
            r is Err ==> final(self).spec_attributes() == old(self).spec_attributes(),
            final(self).spec_zdo() == old(self).spec_zdo(),
            final(self).spec_state() == old(self).spec_state(),
    {
        self.finding_binding_check(has_local_descriptor)?;
        let attrs = self.attributes_mut();
        attrs.commissioning_status = BdbCommissioningStatus::Success;
        Ok(FB_WINDOW_SECONDS)
    }

    /// The result of [`Self::finding_binding_check`].
    pub open spec fn finding_binding_check_result(&self, has_local_descriptor: bool) -> Result<(), BdbStatus> {
        if !self.spec_attributes().node_is_on_a_network {
            Err(BdbStatus::NotOnNetwork)
        } else if !has_local_descriptor {
            Err(BdbStatus::NotPermitted)
        } else {
            Ok(())
        }
    }
}

} // verus!
