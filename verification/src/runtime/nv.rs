//! Identifiers and errors of persistent (non-volatile) storage.

use vstd::prelude::*;

verus! {

/// Identifier of an item kept in non-volatile storage.
///
/// Each identifier has a fixed 16-bit code (see [`NvItemId::raw`]):
/// network parameters use `0x0001..=0x000B`, APS parameters `0x0020..=0x0023`,
/// commissioning state `0x0040..=0x0044` and application data `0x0100` upwards.
#[derive(Debug, Clone, Copy, PartialEq, Eq, Structural)]
pub enum NvItemId {
    NwkPanId,
    NwkChannel,
    NwkShortAddress,
    NwkExtendedPanId,
    NwkIeeeAddress,
    NwkKey,
    NwkKeySeqNum,
    NwkFrameCounter,
    NwkDepth,
    NwkParentAddress,
    NwkUpdateId,
    ApsTrustCenterAddress,
    ApsLinkKey,
    ApsBindingTable,
    ApsGroupTable,
    BdbNodeIsOnNetwork,
    BdbCommissioningMode,
    BdbPrimaryChannelSet,
    BdbSecondaryChannelSet,
    BdbCommissioningGroupId,
    AppEndpoint1,
    AppEndpoint2,
    AppEndpoint3,
    /// First code of user-defined items.
    AppCustomBase,
}

impl NvItemId {
    /// The 16-bit code under which the item is stored.
    pub open spec fn spec_raw(self) -> u16 {
        match self {
            NvItemId::NwkPanId => 0x0001,
            NvItemId::NwkChannel => 0x0002,
            NvItemId::NwkShortAddress => 0x0003,
            NvItemId::NwkExtendedPanId => 0x0004,
            NvItemId::NwkIeeeAddress => 0x0005,
            NvItemId::NwkKey => 0x0006,
            NvItemId::NwkKeySeqNum => 0x0007,
            NvItemId::NwkFrameCounter => 0x0008,
            NvItemId::NwkDepth => 0x0009,
            NvItemId::NwkParentAddress => 0x000A,
            NvItemId::NwkUpdateId => 0x000B,
            NvItemId::ApsTrustCenterAddress => 0x0020,
            NvItemId::ApsLinkKey => 0x0021,
            NvItemId::ApsBindingTable => 0x0022,
            NvItemId::ApsGroupTable => 0x0023,
            NvItemId::BdbNodeIsOnNetwork => 0x0040,
            NvItemId::BdbCommissioningMode => 0x0041,
            NvItemId::BdbPrimaryChannelSet => 0x0042,
            NvItemId::BdbSecondaryChannelSet => 0x0043,
            NvItemId::BdbCommissioningGroupId => 0x0044,
            NvItemId::AppEndpoint1 => 0x0100,
            NvItemId::AppEndpoint2 => 0x0101,
            NvItemId::AppEndpoint3 => 0x0102,
            NvItemId::AppCustomBase => 0x0200,
        }
    }

    /// The 16-bit code under which the item is stored.
    pub fn raw(self) -> (r: u16)
        ensures
            r == self.spec_raw(),
    {
        match self {
            NvItemId::NwkPanId => 0x0001,
            NvItemId::NwkChannel => 0x0002,
            NvItemId::NwkShortAddress => 0x0003,
            NvItemId::NwkExtendedPanId => 0x0004,
            NvItemId::NwkIeeeAddress => 0x0005,
            NvItemId::NwkKey => 0x0006,
            NvItemId::NwkKeySeqNum => 0x0007,
            NvItemId::NwkFrameCounter => 0x0008,
            NvItemId::NwkDepth => 0x0009,
            NvItemId::NwkParentAddress => 0x000A,
            NvItemId::NwkUpdateId => 0x000B,
            NvItemId::ApsTrustCenterAddress => 0x0020,
            NvItemId::ApsLinkKey => 0x0021,
            NvItemId::ApsBindingTable => 0x0022,
            NvItemId::ApsGroupTable => 0x0023,
            NvItemId::BdbNodeIsOnNetwork => 0x0040,
            NvItemId::BdbCommissioningMode => 0x0041,
            NvItemId::BdbPrimaryChannelSet => 0x0042,
            NvItemId::BdbSecondaryChannelSet => 0x0043,
            NvItemId::BdbCommissioningGroupId => 0x0044,
            NvItemId::AppEndpoint1 => 0x0100,
            NvItemId::AppEndpoint2 => 0x0101,
            NvItemId::AppEndpoint3 => 0x0102,
            NvItemId::AppCustomBase => 0x0200,
        }
    }
}

/// Errors of non-volatile storage.
#[derive(Debug, Clone, Copy, PartialEq, Eq, Structural)]
pub enum NvError {
    /// Item does not exist.
    NotFound,
    /// Storage is full.
    Full,
    /// Caller buffer too small for the stored item.
    BufferTooSmall,
    /// Flash write or erase failed.
    HardwareError,
    /// Consistency check failed.
    Corrupt,
}

/// The item stored under a 16-bit code: the identifier whose code it is;
/// any code from `0x0200` upwards is taken as [`NvItemId::AppCustomBase`];
/// other codes name no item.
pub open spec fn spec_raw_to_nv_item_id(raw: u16) -> Option<NvItemId> {
    if raw >= 0x0200 {
        Some(NvItemId::AppCustomBase)
    } else if exists|id: NvItemId| id.spec_raw() == raw {
        Some(choose|id: NvItemId| id.spec_raw() == raw)
    } else {
        None
    }
}

/// Distinct identifiers have distinct codes.
pub proof fn lemma_raw_injective(a: NvItemId, b: NvItemId)
    ensures
        a.spec_raw() == b.spec_raw() ==> a == b,
{
}

/// Map a stored 16-bit code back to its item identifier.
pub fn raw_to_nv_item_id(raw: u16) -> (r: Option<NvItemId>)
    ensures
        r == spec_raw_to_nv_item_id(raw),
{
    let r = match raw {
        0x0001 => Some(NvItemId::NwkPanId),
        0x0002 => Some(NvItemId::NwkChannel),
        0x0003 => Some(NvItemId::NwkShortAddress),
        0x0004 => Some(NvItemId::NwkExtendedPanId),
        0x0005 => Some(NvItemId::NwkIeeeAddress),
        0x0006 => Some(NvItemId::NwkKey),
        0x0007 => Some(NvItemId::NwkKeySeqNum),
        0x0008 => Some(NvItemId::NwkFrameCounter),
        0x0009 => Some(NvItemId::NwkDepth),
        0x000A => Some(NvItemId::NwkParentAddress),
        0x000B => Some(NvItemId::NwkUpdateId),
        0x0020 => Some(NvItemId::ApsTrustCenterAddress),
        0x0021 => Some(NvItemId::ApsLinkKey),
        0x0022 => Some(NvItemId::ApsBindingTable),
        0x0023 => Some(NvItemId::ApsGroupTable),
        0x0040 => Some(NvItemId::BdbNodeIsOnNetwork),
        0x0041 => Some(NvItemId::BdbCommissioningMode),
        0x0042 => Some(NvItemId::BdbPrimaryChannelSet),
        0x0043 => Some(NvItemId::BdbSecondaryChannelSet),
        0x0044 => Some(NvItemId::BdbCommissioningGroupId),
        0x0100 => Some(NvItemId::AppEndpoint1),
        0x0101 => Some(NvItemId::AppEndpoint2),
        0x0102 => Some(NvItemId::AppEndpoint3),
        _ => if raw >= 0x0200 {
            Some(NvItemId::AppCustomBase)
        } else {
            None
        },
    };
    proof {
        match r {
            Some(id) => {
                if raw < 0x0200 {
                    assert(id.spec_raw() == raw);
                    assert forall|x: NvItemId| x.spec_raw() == raw implies x == id by {
                        lemma_raw_injective(x, id);
                    }
                }
            },
            None => {
                assert forall|x: NvItemId| x.spec_raw() != raw by {}
            },
        }
    }
    r
}

/// Every identifier is found again from its own code.
pub proof fn lemma_raw_round_trip(id: NvItemId)
    ensures
        spec_raw_to_nv_item_id(id.spec_raw()) == Some(id),
{
    assert forall|x: NvItemId| x.spec_raw() == id.spec_raw() implies x == id by {
        lemma_raw_injective(x, id);
    }
}

} // verus!
