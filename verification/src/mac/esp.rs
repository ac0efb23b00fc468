//! ESP32 802.15.4 radio: turning a raw received radio buffer into a frame.
//!
//! The radio itself is driven from the application side; this module holds
//! the frame the driver hands on.

use vstd::prelude::*;

verus! {

/// Received frame data (copied out of the radio buffer).
pub struct RxFrame {
    pub data: [u8; 127],
    pub len: usize,
    pub lqi: u8,
}

/// Length of the MAC frame in a raw radio buffer whose first byte is the
/// PHY header (frame length including the 2-byte FCS): that length less
/// the FCS, at most 125.
pub open spec fn raw_mac_len(phr: u8) -> int {
    let mac_len: int = if phr >= 2 { phr - 2 } else { 0 };
    if mac_len < 125 { mac_len } else { 125 }
}

/// The frame held in the raw radio buffer `raw` (PHY header, then the MAC
/// frame without FCS): its MAC bytes, the rest zero, and a mid-range link
/// quality of 128.
pub fn rx_frame_from_raw(raw: &[u8]) -> (rx: RxFrame)
    requires
        raw@.len() >= 126,
    ensures
        rx.len == raw_mac_len(raw@[0]),
        rx.lqi == 128,
        rx.data@ == raw@.subrange(1, 1 + rx.len) + Seq::new((127 - rx.len) as nat, |i: int| 0u8),
{
    let mut rx = RxFrame { data: [0u8; 127], len: 0, lqi: 0 };
    let phr = raw[0] as usize;
    let mac_len: usize = if phr >= 2 { phr - 2 } else { 0 };
    let len: usize = if mac_len < 125 { mac_len } else { 125 };
    let mut i: usize = 0;
    while i < len
        invariant
            i <= len,
            len <= 125,
            raw@.len() >= 126,
            rx.data@.len() == 127,
            forall|k: int| 0 <= k < i ==> rx.data@[k] == raw@[1 + k],
            forall|k: int| i <= k < 127 ==> rx.data@[k] == 0u8,
        decreases len - i,
    {
        rx.data[i] = raw[1 + i];
        i += 1;
    }
    rx.len = len;
    rx.lqi = 128;
    assert(rx.data@ =~= raw@.subrange(1, 1 + len as int) + Seq::new((127 - len) as nat, |i: int| 0u8));
    rx
}

} // verus!
