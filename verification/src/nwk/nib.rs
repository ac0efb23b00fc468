//! Network Information Base (NIB): NWK-layer configuration and state.

use vstd::prelude::*;
use crate::types::{IeeeAddress, PanId, ShortAddress};

verus! {

/// NWK Information Base — all NWK layer state.
#[derive(Debug)]
pub struct Nib {
    // ── Network identity ────────────────────────────────
    /// Extended PAN ID of the network (64-bit)
    pub extended_pan_id: IeeeAddress,
    /// Short (16-bit) PAN ID
    pub pan_id: PanId,
    /// Own network (short) address
    pub network_address: ShortAddress,
    /// Operating channel (11-26)
    pub logical_channel: u8,
    // ── Network parameters ──────────────────────────────
    /// Stack profile: 0x02 = Zigbee PRO
    pub stack_profile: u8,
    /// Network depth of this device
    pub depth: u8,
    /// Maximum depth for the network
    pub max_depth: u8,
    /// Maximum number of child routers
    pub max_routers: u8,
    /// Maximum number of child end devices
    pub max_children: u8,
    /// Network update ID
    pub update_id: u8,
    // ── Addressing ──────────────────────────────────────
    /// Own IEEE (extended) address
    pub ieee_address: IeeeAddress,
    /// Parent's short address
    pub parent_address: ShortAddress,
    /// Short address assignment method
    pub address_assign: AddressAssignMethod,
    // ── Timing ──────────────────────────────────────────
    /// Network broadcast delivery time (in half-seconds)
    pub broadcast_delivery_time: u8,
    /// Passive ack timeout (ms)
    pub passive_ack_timeout: u16,
    /// Max broadcast retries
    pub max_broadcast_retries: u8,
    /// Transaction persistence time (ms)
    pub transaction_persistence_time: u16,
    // ── Routing ─────────────────────────────────────────
    /// Use tree routing (vs mesh-only)
    pub use_tree_routing: bool,
    /// Use source routing
    pub source_routing: bool,
    /// Route discovery retries
    pub route_discovery_retries: u8,
    // ── Security ────────────────────────────────────────
    /// Security level (0=none, 5=ENC-MIC-32, typical for Zigbee)
    pub security_level: u8,
    /// Whether NWK security is enabled
    pub security_enabled: bool,
    /// Active network key index
    pub active_key_seq_number: u8,
    /// NWK frame counter (outgoing)
    pub outgoing_frame_counter: u32,
    // ── Sequences ───────────────────────────────────────
    /// NWK sequence number
    pub sequence_number: u8,
    /// Route request ID counter
    pub route_request_id: u8,
    // ── Permit joining ──────────────────────────────────
    /// Whether new devices can join through this device
    pub permit_joining: bool,
    /// Time remaining for permit joining (0 = permanent, 0xFF = permanent)
    pub permit_joining_duration: u8,
}

/// How short addresses are assigned
#[derive(Debug, Clone, Copy, PartialEq, Eq, Structural)]
pub enum AddressAssignMethod {
    /// Tree-based (CSkip algorithm)
    TreeBased,
    /// Stochastic (random, check for conflicts)
    Stochastic,
}

/// The NIB values of a device that has not joined a network.
pub open spec fn is_default_nib(n: Nib) -> bool {
    &&& n.extended_pan_id@ == seq![0u8, 0, 0, 0, 0, 0, 0, 0]
    &&& n.pan_id == PanId(0xFFFF)
    &&& n.network_address == ShortAddress(0xFFFF)
    &&& n.logical_channel == 0
    &&& n.stack_profile == 0x02
    &&& n.depth == 0
    &&& n.max_depth == 15
    &&& n.max_routers == 5
    &&& n.max_children == 20
    &&& n.update_id == 0
    &&& n.ieee_address@ == seq![0u8, 0, 0, 0, 0, 0, 0, 0]
    &&& n.parent_address == ShortAddress(0xFFFF)
    &&& n.address_assign == AddressAssignMethod::Stochastic
    &&& n.broadcast_delivery_time == 9
    &&& n.passive_ack_timeout == 500
    &&& n.max_broadcast_retries == 3
    &&& n.transaction_persistence_time == 500
    &&& !n.use_tree_routing
    &&& !n.source_routing
    &&& n.route_discovery_retries == 3
    &&& n.security_level == 5
    &&& n.security_enabled
    &&& n.active_key_seq_number == 0
    &&& n.outgoing_frame_counter == 0
    &&& n.sequence_number == 0
    &&& n.route_request_id == 0
    &&& !n.permit_joining
    &&& n.permit_joining_duration == 0
}

/// `n` agrees with `old` on every field but the three counters (NWK
/// sequence number, route request ID, outgoing frame counter).
pub open spec fn same_except_counters(n: Nib, old: Nib) -> bool {
    &&& n.extended_pan_id == old.extended_pan_id
    &&& n.pan_id == old.pan_id
    &&& n.network_address == old.network_address
    &&& n.logical_channel == old.logical_channel
    &&& n.stack_profile == old.stack_profile
    &&& n.depth == old.depth
    &&& n.max_depth == old.max_depth
    &&& n.max_routers == old.max_routers
    &&& n.max_children == old.max_children
    &&& n.update_id == old.update_id
    &&& n.ieee_address == old.ieee_address
    &&& n.parent_address == old.parent_address
    &&& n.address_assign == old.address_assign
    &&& n.broadcast_delivery_time == old.broadcast_delivery_time
    &&& n.passive_ack_timeout == old.passive_ack_timeout
    &&& n.max_broadcast_retries == old.max_broadcast_retries
    &&& n.transaction_persistence_time == old.transaction_persistence_time
    &&& n.use_tree_routing == old.use_tree_routing
    &&& n.source_routing == old.source_routing
    &&& n.route_discovery_retries == old.route_discovery_retries
    &&& n.security_level == old.security_level
    &&& n.security_enabled == old.security_enabled
    &&& n.active_key_seq_number == old.active_key_seq_number
    &&& n.permit_joining == old.permit_joining
    &&& n.permit_joining_duration == old.permit_joining_duration
}

/// Successor of an 8-bit counter, wrapping from 255 to 0.
pub open spec fn wrap_inc_u8(v: u8) -> u8 {
    if v == 255 { 0 } else { (v + 1) as u8 }
}

/// Successor of a 32-bit counter, wrapping from 2^32 - 1 to 0.
pub open spec fn wrap_inc_u32(v: u32) -> u32 {
    if v == u32::MAX { 0 } else { (v + 1) as u32 }
}

impl Nib {
    /// Create a new NIB with default values.
    pub fn new() -> (r: Self)
        ensures
            is_default_nib(r),
    {
        let r = Self {
            extended_pan_id: [0u8; 8],
            pan_id: PanId(0xFFFF),
            network_address: ShortAddress(0xFFFF),
            logical_channel: 0,
            stack_profile: 0x02,  // Zigbee PRO
            depth: 0,
            max_depth: 15,
            max_routers: 5,
            max_children: 20,
            update_id: 0,
            ieee_address: [0u8; 8],
            parent_address: ShortAddress(0xFFFF),
            address_assign: AddressAssignMethod::Stochastic,
            broadcast_delivery_time: 9,
            passive_ack_timeout: 500,
            max_broadcast_retries: 3,
            transaction_persistence_time: 500,
            use_tree_routing: false,
            source_routing: false,
            route_discovery_retries: 3,
            security_level: 5,  // ENC-MIC-32 (standard Zigbee)
            security_enabled: true,
            active_key_seq_number: 0,
            outgoing_frame_counter: 0,
            sequence_number: 0,
            route_request_id: 0,
            permit_joining: false,
            permit_joining_duration: 0,
        };
        assert(r.extended_pan_id@ =~= seq![0u8, 0, 0, 0, 0, 0, 0, 0]);
        assert(r.ieee_address@ =~= seq![0u8, 0, 0, 0, 0, 0, 0, 0]);
        r
    }

    /// Get the next NWK sequence number (wrapping).
    pub fn next_seq(&mut self) -> (seq: u8)
        ensures
            seq == old(self).sequence_number,
            final(self).sequence_number == wrap_inc_u8(seq),
            final(self).route_request_id == old(self).route_request_id,
            final(self).outgoing_frame_counter == old(self).outgoing_frame_counter,
            same_except_counters(*final(self), *old(self)),
    {
        let seq = self.sequence_number;
        self.sequence_number = self.sequence_number.wrapping_add(1);
        seq
    }

    /// Get the next route request ID (wrapping).
    pub fn next_route_request_id(&mut self) -> (id: u8)
        ensures
            id == old(self).route_request_id,
            final(self).route_request_id == wrap_inc_u8(id),
            final(self).sequence_number == old(self).sequence_number,
            final(self).outgoing_frame_counter == old(self).outgoing_frame_counter,
            same_except_counters(*final(self), *old(self)),
    {
        let id = self.route_request_id;
        self.route_request_id = self.route_request_id.wrapping_add(1);
        id
    }

    /// Increment outgoing frame counter. Returns the pre-increment value.
    pub fn next_frame_counter(&mut self) -> (fc: u32)
        ensures
            fc == old(self).outgoing_frame_counter,
            final(self).outgoing_frame_counter == wrap_inc_u32(fc),
            final(self).sequence_number == old(self).sequence_number,
            final(self).route_request_id == old(self).route_request_id,
            same_except_counters(*final(self), *old(self)),
    {
        let fc = self.outgoing_frame_counter;
        self.outgoing_frame_counter = self.outgoing_frame_counter.wrapping_add(1);
        fc
    }
}

impl Default for Nib {
    fn default() -> (r: Self)
        ensures
            is_default_nib(r),
    {
        Self::new()
    }
}

} // verus!
