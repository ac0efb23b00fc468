//! Base Device Behavior (BDB) commissioning: status codes, attributes and
//! the layer that holds them around the ZDO layer.

pub mod finding_binding;

use vstd::prelude::*;

verus! {

/// BDB commissioning status (BDB spec Table 4).
#[derive(Debug, Clone, Copy, PartialEq, Eq, Structural)]
pub enum BdbStatus {
    /// Commissioning completed successfully.
    Success,
    /// Commissioning is currently in progress.
    InProgress,
    /// The node is not on a network.
    NotOnNetwork,
    /// The operation is not supported by this device.
    NotPermitted,
    /// No beacons received during steering.
    NoScanResponse,
    /// Network formation failed.
    FormationFailure,
    /// Network steering failed after all retries.
    SteeringFailure,
    /// No Identify Query response during Finding & Binding.
    NoIdentifyResponse,
    /// Binding table full or cluster matching failed.
    BindingTableFull,
    /// Touchlink commissioning failed or not supported.
    TouchlinkFailure,
    /// Target device is not in identifying mode.
    TargetFailure,
    /// Operation timed out.
    Timeout,
}

impl BdbStatus {
    /// Numeric status code.
    pub open spec fn spec_code(self) -> u8 {
        match self {
            BdbStatus::Success => 0x00,
            BdbStatus::InProgress => 0x01,
            BdbStatus::NotOnNetwork => 0x02,
            BdbStatus::NotPermitted => 0x03,
            BdbStatus::NoScanResponse => 0x04,
            BdbStatus::FormationFailure => 0x05,
            BdbStatus::SteeringFailure => 0x06,
            BdbStatus::NoIdentifyResponse => 0x07,
            BdbStatus::BindingTableFull => 0x08,
            BdbStatus::TouchlinkFailure => 0x09,
            BdbStatus::TargetFailure => 0x0A,
            BdbStatus::Timeout => 0x0B,
        }
    }

    /// Numeric status code.
    pub fn code(self) -> (r: u8)
        ensures
            r == self.spec_code(),
    {
        match self {
            BdbStatus::Success => 0x00,
            BdbStatus::InProgress => 0x01,
            BdbStatus::NotOnNetwork => 0x02,
            BdbStatus::NotPermitted => 0x03,
            BdbStatus::NoScanResponse => 0x04,
            BdbStatus::FormationFailure => 0x05,
            BdbStatus::SteeringFailure => 0x06,
            BdbStatus::NoIdentifyResponse => 0x07,
            BdbStatus::BindingTableFull => 0x08,
            BdbStatus::TouchlinkFailure => 0x09,
            BdbStatus::TargetFailure => 0x0A,
            BdbStatus::Timeout => 0x0B,
        }
    }
}

/// The `bdbCommissioningStatus` attribute (the values Finding & Binding sets).
#[derive(Debug, Clone, Copy, PartialEq, Eq, Structural)]
pub enum BdbCommissioningStatus {
    Success,
    NoIdentifyQueryResponse,
}

/// BDB attributes read and written by commissioning.
#[derive(Debug, Clone, Copy, PartialEq, Eq, Structural)]
pub struct BdbAttributes {
    /// `bdbNodeIsOnANetwork`.
    pub node_is_on_a_network: bool,
    /// `bdbCommissioningStatus`.
    pub commissioning_status: BdbCommissioningStatus,
    /// `bdbCommissioningGroupID` (0xFFFF: no group binding).
    pub commissioning_group_id: u16,
}

impl Default for BdbAttributes {
    /// Not on a network, status success, no commissioning group.
    fn default() -> (r: Self)
        ensures
            r == (BdbAttributes {
                node_is_on_a_network: false,
                commissioning_status: BdbCommissioningStatus::Success,
                commissioning_group_id: 0xFFFF,
            }),
    {
        BdbAttributes {
            node_is_on_a_network: false,
            commissioning_status: BdbCommissioningStatus::Success,
            commissioning_group_id: 0xFFFF,
        }
    }
}

/// The BDB commissioning layer: the ZDO layer it drives (`Z`), the BDB
/// attributes, and the commissioning state (`S`).
pub struct BdbLayer<Z, S> {
    zdo: Z,
    attributes: BdbAttributes,
    state: S,
}

impl<Z, S> BdbLayer<Z, S> {
    /// The ZDO layer.
    pub closed spec fn spec_zdo(&self) -> Z {
        self.zdo
    }

    /// The BDB attributes.
    pub closed spec fn spec_attributes(&self) -> BdbAttributes {
        self.attributes
    }

    /// The commissioning state.
    pub closed spec fn spec_state(&self) -> S {
        self.state
    }

    /// A BDB layer around `zdo` with default attributes in the idle state `idle`.
    pub fn new(zdo: Z, idle: S) -> (r: Self)
        ensures
            r.spec_zdo() == zdo,
            r.spec_state() == idle,
            r.spec_attributes() == (BdbAttributes {
                node_is_on_a_network: false,
                commissioning_status: BdbCommissioningStatus::Success,
                commissioning_group_id: 0xFFFF,
            }),
    {
        BdbLayer { zdo, attributes: BdbAttributes::default(), state: idle }
    }

    /// The ZDO layer.
    pub fn zdo(&self) -> (r: &Z)
        ensures
            *r == self.spec_zdo(),
    {
        &self.zdo
    }

    /// The ZDO layer, mutably.
    pub fn zdo_mut(&mut self) -> (r: &mut Z)
        ensures
            *r == old(self).spec_zdo(),
            final(self).spec_zdo() == *final(r),
            final(self).spec_attributes() == old(self).spec_attributes(),
            final(self).spec_state() == old(self).spec_state(),
    {
        &mut self.zdo
    }

    /// The BDB attributes.
    pub fn attributes(&self) -> (r: &BdbAttributes)
        ensures
            *r == self.spec_attributes(),
    {
        &self.attributes
    }

    /// The BDB attributes, mutably.
    pub fn attributes_mut(&mut self) -> (r: &mut BdbAttributes)
        ensures
            *r == old(self).spec_attributes(),
            final(self).spec_attributes() == *final(r),
            final(self).spec_zdo() == old(self).spec_zdo(),
            final(self).spec_state() == old(self).spec_state(),
    {
        &mut self.attributes
    }

    /// The commissioning state.
    pub fn state(&self) -> (r: &S)
        ensures
            *r == self.spec_state(),
    {
        &self.state
    }

    /// Whether the device is on a Zigbee network.
    pub fn is_on_network(&self) -> (r: bool)
        ensures
            r == self.spec_attributes().node_is_on_a_network,
    {
        self.attributes.node_is_on_a_network
    }
}

} // verus!
