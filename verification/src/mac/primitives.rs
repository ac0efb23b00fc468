//! MAC-layer data types exchanged with the network layer: addresses as
//! plain values, superframe specification, beacon payloads, PAN descriptors
//! and capability information.

use vstd::prelude::*;
use crate::types::{MacAddress, PanId, ShortAddress};

verus! {

/// A MAC address as plain values: PAN identifier, then a short address or
/// the eight bytes of an extended address.
pub enum MacAddressView {
    Short(u16, u16),
    Extended(u16, Seq<u8>),
}

impl View for MacAddress {
    type V = MacAddressView;

    open spec fn view(&self) -> MacAddressView {
        match self {
            MacAddress::Short(p, a) => MacAddressView::Short(p.0, a.0),
            MacAddress::Extended(p, e) => MacAddressView::Extended(p.0, e@),
        }
    }
}

/// Superframe specification field of a beacon (IEEE 802.15.4, 16 bits).
#[derive(Debug, Clone, Copy, PartialEq, Eq, Structural)]
pub struct SuperframeSpec {
    /// Beacon order (bits 0-3)
    pub beacon_order: u8,
    /// Superframe order (bits 4-7)
    pub superframe_order: u8,
    /// Final CAP slot (bits 8-11)
    pub final_cap_slot: u8,
    /// Battery life extension (bit 12)
    pub battery_life_extension: bool,
    /// Sent by the PAN coordinator (bit 14)
    pub pan_coordinator: bool,
    /// Association permitted (bit 15)
    pub association_permit: bool,
}

impl SuperframeSpec {
    /// The fields of a raw superframe specification.
    pub open spec fn spec_from_raw(raw: u16) -> SuperframeSpec {
        SuperframeSpec {
            beacon_order: (raw & 0x0F) as u8,
            superframe_order: ((raw >> 4) & 0x0F) as u8,
            final_cap_slot: ((raw >> 8) & 0x0F) as u8,
            battery_life_extension: (raw >> 12) & 1 != 0,
            pan_coordinator: (raw >> 14) & 1 != 0,
            association_permit: (raw >> 15) & 1 != 0,
        }
    }

    /// The fields of a superframe specification are the digits of the raw
    /// value in the IEEE 802.15.4 layout: beacon order in bits 0-3,
    /// superframe order in bits 4-7, final CAP slot in bits 8-11, battery
    /// life extension in bit 12, bit 13 reserved, PAN coordinator in bit 14
    /// and association permit in bit 15.
    pub proof fn law_superframe_layout(raw: u16)
        ensures
            ({
                let f = Self::spec_from_raw(raw);
                &&& f.beacon_order < 16
                &&& f.superframe_order < 16
                &&& f.final_cap_slot < 16
                &&& raw as int == f.beacon_order + 16 * f.superframe_order + 256 * f.final_cap_slot + (if f.battery_life_extension {
                    0x1000int
                } else {
                    0int
                }) + (raw as int / 0x2000) % 2 * 0x2000 + (if f.pan_coordinator {
                    0x4000int
                } else {
                    0int
                }) + (if f.association_permit {
                    0x8000int
                } else {
                    0int
                })
            }),
    {
        let b0 = raw & 0x0F;
        let b1 = (raw >> 4) & 0x0F;
        let b2 = (raw >> 8) & 0x0F;
        let e = (raw >> 12) & 1;
        let p = (raw >> 14) & 1;
        let a = (raw >> 15) & 1;
        assert(b0 < 16 && b1 < 16 && b2 < 16 && e < 2 && p < 2 && a < 2) by (bit_vector)
            requires
                b0 == raw & 0x0F,
                b1 == (raw >> 4) & 0x0F,
                b2 == (raw >> 8) & 0x0F,
                e == (raw >> 12) & 1,
                p == (raw >> 14) & 1,
                a == (raw >> 15) & 1,
        ;
        assert(raw == b0 + 16 * b1 + 256 * b2 + 0x1000 * e + ((raw >> 13) & 1) * 0x2000 + 0x4000 * p + 0x8000 * a)
            by (bit_vector)
            requires
                b0 == raw & 0x0F,
                b1 == (raw >> 4) & 0x0F,
                b2 == (raw >> 8) & 0x0F,
                e == (raw >> 12) & 1,
                p == (raw >> 14) & 1,
                a == (raw >> 15) & 1,
        ;
        assert((raw >> 13) & 1 == (raw as int / 0x2000) % 2) by (bit_vector);
    }

    /// Decode a raw superframe specification.
    pub fn from_raw(raw: u16) -> (r: Self)
        ensures
            r == Self::spec_from_raw(raw),
    {
        SuperframeSpec {
            beacon_order: (raw & 0x0F) as u8,
            superframe_order: ((raw >> 4) & 0x0F) as u8,
            final_cap_slot: ((raw >> 8) & 0x0F) as u8,
            battery_life_extension: (raw >> 12) & 1 != 0,
            pan_coordinator: (raw >> 14) & 1 != 0,
            association_permit: (raw >> 15) & 1 != 0,
        }
    }
}

/// Zigbee beacon payload carried in a MAC beacon.
#[derive(Debug, Clone, Copy, PartialEq, Eq)]
pub struct ZigbeeBeaconPayload {
    pub protocol_id: u8,
    pub stack_profile: u8,
    pub protocol_version: u8,
    pub router_capacity: bool,
    pub device_depth: u8,
    pub end_device_capacity: bool,
    pub extended_pan_id: [u8; 8],
    pub tx_offset: [u8; 3],
    pub update_id: u8,
}

/// Description of a PAN heard during a scan.
#[derive(Debug, Clone, Copy, PartialEq, Eq)]
pub struct PanDescriptor {
    pub coord_address: MacAddress,
    pub channel: u8,
    pub superframe_spec: SuperframeSpec,
    pub lqi: u8,
    pub security_use: bool,
    pub zigbee_beacon: ZigbeeBeaconPayload,
}

/// Capability information sent in an association request.
#[derive(Debug, Clone, Copy, PartialEq, Eq, Structural, Default)]
pub struct CapabilityInfo {
    /// Capable of becoming a PAN coordinator (bit 0)
    pub alternate_pan_coordinator: bool,
    /// Full-function (router-capable) device (bit 1)
    pub device_type_ffd: bool,
    /// Mains powered (bit 2)
    pub mains_powered: bool,
    /// Receiver on when idle (bit 3)
    pub rx_on_when_idle: bool,
    /// Capable of secured MAC frames (bit 6)
    pub security_capable: bool,
    /// Asks the coordinator to allocate a short address (bit 7)
    pub allocate_address: bool,
}

/// A byte with only the given bit, when `set`.
pub open spec fn bit_if(set: bool, bit: u8) -> u8 {
    if set { bit } else { 0 }
}

impl CapabilityInfo {
    /// The capability byte.
    pub open spec fn spec_to_byte(self) -> u8 {
        bit_if(self.alternate_pan_coordinator, 0x01) | bit_if(self.device_type_ffd, 0x02) | bit_if(
            self.mains_powered,
            0x04,
        ) | bit_if(self.rx_on_when_idle, 0x08) | bit_if(self.security_capable, 0x40) | bit_if(
            self.allocate_address,
            0x80,
        )
    }

    /// Encode as the capability byte.
    pub fn to_byte(&self) -> (r: u8)
        ensures
            r == self.spec_to_byte(),
    {
        let a: u8 = if self.alternate_pan_coordinator { 0x01 } else { 0 };
        let d: u8 = if self.device_type_ffd { 0x02 } else { 0 };
        let m: u8 = if self.mains_powered { 0x04 } else { 0 };
        let rx: u8 = if self.rx_on_when_idle { 0x08 } else { 0 };
        let s: u8 = if self.security_capable { 0x40 } else { 0 };
        let al: u8 = if self.allocate_address { 0x80 } else { 0 };
        a | d | m | rx | s | al
    }
}

} // verus!
