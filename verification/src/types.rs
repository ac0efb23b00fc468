//! Core address and identifier types shared by every layer of the stack.

use vstd::prelude::*;

verus! {

/// 16-bit network (short) address.
#[derive(Debug, Clone, Copy, PartialEq, Eq, Structural, Default)]
pub struct ShortAddress(pub u16);

/// 16-bit PAN identifier.
#[derive(Debug, Clone, Copy, PartialEq, Eq, Structural, Default)]
pub struct PanId(pub u16);

/// 64-bit IEEE (extended) address, little-endian byte order.
pub type IeeeAddress = [u8; 8];

/// A MAC-level address: PAN identifier plus either a short or an extended address.
#[derive(Debug, Clone, Copy, PartialEq, Eq)]
pub enum MacAddress {
    Short(PanId, ShortAddress),
    Extended(PanId, IeeeAddress),
}

impl MacAddress {
    pub open spec fn spec_pan_id(self) -> PanId {
        match self {
            MacAddress::Short(p, _) => p,
            MacAddress::Extended(p, _) => p,
        }
    }

    /// The PAN identifier carried by this address.
    pub fn pan_id(&self) -> (r: PanId)
        ensures
            r == self.spec_pan_id(),
    {
        match self {
            MacAddress::Short(p, _) => *p,
            MacAddress::Extended(p, _) => *p,
        }
    }
}

/// Direction of a ZCL command relative to the cluster.
#[derive(Debug, Clone, Copy, PartialEq, Eq, Structural)]
pub enum ClusterDirection {
    ClientToServer,
    ServerToClient,
}

/// ZCL attribute identifier.
#[derive(Debug, Clone, Copy, PartialEq, Eq, Structural, Default)]
pub struct AttributeId(pub u16);

/// ZCL command identifier.
#[derive(Debug, Clone, Copy, PartialEq, Eq, Structural, Default)]
pub struct CommandId(pub u8);

/// Logical role of a device in the network.
#[derive(Debug, Clone, Copy, PartialEq, Eq, Structural)]
pub enum DeviceType {
    Coordinator,
    Router,
    EndDevice,
}

/// Little-endian byte pair as a 16-bit value.
pub open spec fn spec_le_u16(lo: u8, hi: u8) -> u16 {
    (lo as int + 256 * (hi as int)) as u16
}

/// Combine a little-endian byte pair into a `u16`.
pub fn le_u16(lo: u8, hi: u8) -> (r: u16)
    ensures
        r as int == lo as int + 256 * (hi as int),
        r == spec_le_u16(lo, hi),
{
    (lo as u16) + (hi as u16) * 256
}

/// Low byte of a 16-bit value.
pub open spec fn spec_lo(v: u16) -> u8 {
    (v % 256) as u8
}

/// High byte of a 16-bit value.
pub open spec fn spec_hi(v: u16) -> u8 {
    (v / 256) as u8
}

/// Split a `u16` into its little-endian bytes `(low, high)`.
pub fn u16_le_bytes(v: u16) -> (r: (u8, u8))
    ensures
        r.0 == spec_lo(v),
        r.1 == spec_hi(v),
        r.0 as int + 256 * (r.1 as int) == v as int,
{
    ((v % 256) as u8, (v / 256) as u8)
}

/// Splitting a value into bytes and joining them back gives the value.
pub proof fn lemma_le_u16_split(v: u16)
    ensures
        spec_le_u16(spec_lo(v), spec_hi(v)) == v,
{
}

/// Joining two bytes and splitting the result gives the bytes back.
pub proof fn lemma_le_u16_join(lo: u8, hi: u8)
    ensures
        spec_lo(spec_le_u16(lo, hi)) == lo,
        spec_hi(spec_le_u16(lo, hi)) == hi,
{
}

} // verus!
