//! MAC drivers of radios whose hardware interface is not wired up yet
//! (TI CC2652 RF core, Silicon Labs EFR32 RAIL, STM32WB coprocessor): the
//! MAC state each of them starts from.

use vstd::prelude::*;
use crate::types::{PanId, ShortAddress};

verus! {

/// TI CC2652 MAC driver (RF core command interface).
pub struct Cc26xxMac {
    seq_number: u8,
    short_address: ShortAddress,
    pan_id: PanId,
    channel: u8,
}

impl Cc26xxMac {
    /// Sequence number, short address, PAN ID and channel.
    pub closed spec fn state(&self) -> (u8, ShortAddress, PanId, u8) {
        (self.seq_number, self.short_address, self.pan_id, self.channel)
    }

    /// Sequence number 0, unassigned short address and PAN ID (0xFFFF),
    /// channel 11.
    pub fn new() -> (r: Self)
        ensures
            r.state() == (0u8, ShortAddress(0xFFFF), PanId(0xFFFF), 11u8),
    {
        Cc26xxMac { seq_number: 0, short_address: ShortAddress(0xFFFF), pan_id: PanId(0xFFFF), channel: 11 }
    }
}

/// Silicon Labs EFR32MG24 MAC driver (RAIL).
pub struct Efr32Mac {
    seq_number: u8,
    short_address: ShortAddress,
    pan_id: PanId,
    channel: u8,
}

impl Efr32Mac {
    /// Sequence number, short address, PAN ID and channel.
    pub closed spec fn state(&self) -> (u8, ShortAddress, PanId, u8) {
        (self.seq_number, self.short_address, self.pan_id, self.channel)
    }

    /// Sequence number 0, unassigned short address and PAN ID (0xFFFF),
    /// channel 11.
    pub fn new() -> (r: Self)
        ensures
            r.state() == (0u8, ShortAddress(0xFFFF), PanId(0xFFFF), 11u8),
    {
        Efr32Mac { seq_number: 0, short_address: ShortAddress(0xFFFF), pan_id: PanId(0xFFFF), channel: 11 }
    }
}

/// STM32WB55 MAC driver (M0+ coprocessor over IPCC).
pub struct Stm32wbMac {
    seq_number: u8,
    short_address: ShortAddress,
    pan_id: PanId,
    channel: u8,
}

impl Stm32wbMac {
    /// Sequence number, short address, PAN ID and channel.
    pub closed spec fn state(&self) -> (u8, ShortAddress, PanId, u8) {
        (self.seq_number, self.short_address, self.pan_id, self.channel)
    }

    /// Sequence number 0, unassigned short address and PAN ID (0xFFFF),
    /// channel 11.
    pub fn new() -> (r: Self)
        ensures
            r.state() == (0u8, ShortAddress(0xFFFF), PanId(0xFFFF), 11u8),
    {
        Stm32wbMac { seq_number: 0, short_address: ShortAddress(0xFFFF), pan_id: PanId(0xFFFF), channel: 11 }
    }
}

} // verus!
