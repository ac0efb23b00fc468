//! CC2340 802.15.4 radio: configuration state and the decisions of the
//! driver around TI's radio library.
//!
//! The radio library itself is reached from the application side; this
//! module keeps the driver's configuration, validates frames handed to and
//! received from the radio, and maps the library's status codes.

use vstd::prelude::*;
use crate::mac::frames::{addressing_size, spec_addressing_size};
use crate::types::{le_u16, spec_le_u16};

verus! {

/// Maximum IEEE 802.15.4 frame size.
pub const MAX_FRAME_LEN: usize = 127;

/// Radio command status of the radio library (the values used here).
#[derive(Debug, Clone, Copy, PartialEq, Eq, Structural)]
pub enum RclCommandStatus {
    Idle,
    Active,
    Finished,
    ChannelBusy,
    NoAck,
    RxErr,
    Error,
}

impl RclCommandStatus {
    /// Numeric status code.
    pub open spec fn spec_code(self) -> u16 {
        match self {
            RclCommandStatus::Idle => 0x0000,
            RclCommandStatus::Active => 0x0001,
            RclCommandStatus::Finished => 0x0101,
            RclCommandStatus::ChannelBusy => 0x0801,
            RclCommandStatus::NoAck => 0x0802,
            RclCommandStatus::RxErr => 0x0803,
            RclCommandStatus::Error => 0x0F00,
        }
    }

    /// Numeric status code.
    pub fn code(self) -> (r: u16)
        ensures
            r == self.spec_code(),
    {
        match self {
            RclCommandStatus::Idle => 0x0000,
            RclCommandStatus::Active => 0x0001,
            RclCommandStatus::Finished => 0x0101,
            RclCommandStatus::ChannelBusy => 0x0801,
            RclCommandStatus::NoAck => 0x0802,
            RclCommandStatus::RxErr => 0x0803,
            RclCommandStatus::Error => 0x0F00,
        }
    }
}

/// How a radio command is stopped.
#[derive(Debug, Clone, Copy, PartialEq, Eq, Structural)]
pub enum RclStopType {
    Graceful,
    Hard,
}

impl RclStopType {
    /// Numeric stop type (graceful 0, hard 1).
    pub fn code(self) -> (r: u32)
        ensures
            r == (if self == RclStopType::Graceful { 0u32 } else { 1u32 }),
    {
        match self {
            RclStopType::Graceful => 0,
            RclStopType::Hard => 1,
        }
    }
}

/// TX power in dBm with fractional part.
#[derive(Debug, Clone, Copy, PartialEq, Eq, Structural)]
pub struct RclTxPower {
    pub dbm: i8,
    pub fraction: u8,
}

/// Outcome of a transmission, as reported by the radio.
#[derive(Debug, Clone, Copy, PartialEq, Eq, Structural)]
pub enum TxResult {
    Success,
    ChannelBusy,
    NoAck,
    Error,
}

/// The outcome reported by a TX-done status byte: 0 success, 1 channel
/// busy, 2 no acknowledgement, anything else an error.
pub fn tx_result_from_status(status: u8) -> (r: TxResult)
    ensures
        r == (if status == 0 {
            TxResult::Success
        } else if status == 1 {
            TxResult::ChannelBusy
        } else if status == 2 {
            TxResult::NoAck
        } else {
            TxResult::Error
        }),
{
    match status {
        0 => TxResult::Success,
        1 => TxResult::ChannelBusy,
        2 => TxResult::NoAck,
        _ => TxResult::Error,
    }
}

/// Radio configuration of the driver.
#[derive(Debug, Clone)]
pub struct RadioConfig {
    pub channel: u8,
    pub pan_id: u16,
    pub short_addr: u16,
    pub ieee_addr: [u8; 8],
    pub tx_power_dbm: i8,
    pub rx_on_when_idle: bool,
    pub promiscuous: bool,
    pub auto_ack: bool,
}

impl RadioConfig {
    /// The default configuration: channel 11, broadcast PAN ID and short
    /// address, zero IEEE address, 0 dBm, receiver off when idle, not
    /// promiscuous, auto-ACK on.
    pub open spec fn is_default(self) -> bool {
        &&& self.channel == 11
        &&& self.pan_id == 0xFFFF
        &&& self.short_addr == 0xFFFF
        &&& self.ieee_addr@ == seq![0u8, 0, 0, 0, 0, 0, 0, 0]
        &&& self.tx_power_dbm == 0
        &&& !self.rx_on_when_idle
        &&& !self.promiscuous
        &&& self.auto_ack
    }
}

impl Default for RadioConfig {
    fn default() -> (r: Self)
        ensures
            r.is_default(),
    {
        let r = RadioConfig {
            channel: 11,
            pan_id: 0xFFFF,
            short_addr: 0xFFFF,
            ieee_addr: [0u8; 8],
            tx_power_dbm: 0,
            rx_on_when_idle: false,
            promiscuous: false,
            auto_ack: true,
        };
        assert(r.ieee_addr@ =~= seq![0u8, 0, 0, 0, 0, 0, 0, 0]);
        r
    }
}

/// Radio error.
#[derive(Debug, Clone, Copy, PartialEq, Eq, Structural)]
pub enum RadioError {
    TxFailed,
    ChannelBusy,
    NoAck,
    Timeout,
    HardwareError,
}

/// What a transmission returns for the outcome the radio reported.
pub fn tx_outcome(result: TxResult) -> (r: Result<(), RadioError>)
    ensures
        r == match result {
            TxResult::Success => Ok::<(), RadioError>(()),
            TxResult::ChannelBusy => Err::<(), RadioError>(RadioError::ChannelBusy),
            TxResult::NoAck => Err::<(), RadioError>(RadioError::NoAck),
            TxResult::Error => Err::<(), RadioError>(RadioError::TxFailed),
        },
{
    match result {
        TxResult::Success => Ok(()),
        TxResult::ChannelBusy => Err(RadioError::ChannelBusy),
        TxResult::NoAck => Err(RadioError::NoAck),
        TxResult::Error => Err(RadioError::TxFailed),
    }
}

/// A frame can be handed to the radio when it is neither empty nor longer
/// than [`MAX_FRAME_LEN`]; otherwise the transmission fails.
pub fn check_tx_frame(frame: &[u8]) -> (r: Result<(), RadioError>)
    ensures
        r is Ok <==> 0 < frame@.len() <= MAX_FRAME_LEN,
        r is Err ==> r == Err::<(), RadioError>(RadioError::TxFailed),
{
    if frame.len() == 0 || frame.len() > MAX_FRAME_LEN {
        return Err(RadioError::TxFailed);
    }
    Ok(())
}

/// The outcome of a clear channel assessment: clear (with the measured
/// RSSI) when the radio library returned 0, busy otherwise.
pub fn cca_outcome(ret: i32, rssi: i8) -> (r: Result<i8, RadioError>)
    ensures
        ret == 0 ==> r == Ok::<i8, RadioError>(rssi),
        ret != 0 ==> r == Err::<i8, RadioError>(RadioError::ChannelBusy),
{
    if ret == 0 {
        Ok(rssi)
    } else {
        Err(RadioError::ChannelBusy)
    }
}

/// A received frame is taken from the radio when its length is between 1
/// and [`MAX_FRAME_LEN`] and its data is present.
pub fn rx_frame_acceptable(len: u8, data_present: bool) -> (r: bool)
    ensures
        r == (len != 0 && len as int <= MAX_FRAME_LEN && data_present),
{
    !(len == 0 || len as usize > MAX_FRAME_LEN || !data_present)
}

/// A received IEEE 802.15.4 frame with metadata.
pub struct RxFrame {
    pub data: [u8; 127],
    pub len: usize,
    pub rssi: i8,
    pub lqi: u8,
}

/// The frame waiting in the receive buffer `buf`, of length `len`: a
/// timeout when none is waiting (`len` 0); otherwise its first `len` bytes,
/// the rest of the frame data zero.
pub fn rx_frame_from_buffer(buf: &[u8], len: u8, rssi: i8, lqi: u8) -> (r: Result<RxFrame, RadioError>)
    requires
        len as int <= MAX_FRAME_LEN,
        len as int <= buf@.len(),
    ensures
        len == 0 ==> r == Err::<RxFrame, RadioError>(RadioError::Timeout),
        len != 0 ==> (r matches Ok(f) && f.len == len as usize && f.rssi == rssi && f.lqi == lqi
            && f.data@ == buf@.subrange(0, len as int) + Seq::new((127 - len) as nat, |i: int| 0u8)),
{
    let len = len as usize;
    if len == 0 {
        return Err(RadioError::Timeout);
    }
    let mut frame = RxFrame { data: [0u8; 127], len, rssi, lqi };
    let mut i: usize = 0;
    while i < len
        invariant
            i <= len,
            len <= 127,
            len <= buf@.len(),
            frame.len == len,
            frame.rssi == rssi,
            frame.lqi == lqi,
            frame.data@.len() == 127,
            forall|k: int| 0 <= k < i ==> frame.data@[k] == buf@[k],
            forall|k: int| i <= k < 127 ==> frame.data@[k] == 0u8,
        decreases len - i,
    {
        frame.data[i] = buf[i];
        i += 1;
    }
    assert(frame.data@ =~= buf@.subrange(0, len as int) + Seq::new((127 - len) as nat, |i: int| 0u8));
    Ok(frame)
}

/// MAC header length of `frame`: frame control (2) + sequence number (1)
/// + addressing fields; 0 when the frame is shorter than its frame control.
pub fn compute_mhr_len(frame: &[u8]) -> (r: u8)
    ensures
        frame@.len() < 2 ==> r == 0,
        frame@.len() >= 2 ==> r == 3 + spec_addressing_size(spec_le_u16(frame@[0], frame@[1])),
{
    if frame.len() < 2 {
        return 0;
    }
    let fc = le_u16(frame[0], frame[1]);
    let addr_len = addressing_size(fc);
    (3 + addr_len) as u8
}

/// CC2340 radio driver state: its configuration and whether the radio
/// hardware has been initialized.
pub struct Cc2340Driver {
    config: RadioConfig,
    initialized: bool,
}

impl Cc2340Driver {
    /// The configuration.
    pub closed spec fn spec_config(&self) -> RadioConfig {
        self.config
    }

    /// Whether the radio hardware is initialized.
    pub closed spec fn spec_initialized(&self) -> bool {
        self.initialized
    }

    /// A driver with the given configuration; the radio is not initialized.
    pub fn new(config: RadioConfig) -> (r: Self)
        ensures
            r.spec_config() == config,
            !r.spec_initialized(),
    {
        Cc2340Driver { config, initialized: false }
    }

    /// The configuration.
    pub fn config(&self) -> (r: &RadioConfig)
        ensures
            *r == self.spec_config(),
    {
        &self.config
    }

    /// Whether the radio hardware is initialized.
    pub fn is_initialized(&self) -> (r: bool)
        ensures
            r == self.spec_initialized(),
    {
        self.initialized
    }

    /// Mark the radio initialized. Returns whether it was not initialized
    /// before, in which case the radio must be brought up and the
    /// configuration applied to it.
    pub fn init(&mut self) -> (bring_up: bool)
        ensures
            bring_up == !old(self).spec_initialized(),
            final(self).spec_initialized(),
            final(self).spec_config() == old(self).spec_config(),
    {
        if self.initialized {
            return false;
        }
        self.initialized = true;
        true
    }

    /// Mark the radio not initialized. Returns whether it was initialized
    /// before, in which case the radio must be shut down.
    pub fn deinit(&mut self) -> (shut_down: bool)
        ensures
            shut_down == old(self).spec_initialized(),
            !final(self).spec_initialized(),
            final(self).spec_config() == old(self).spec_config(),
    {
        if !self.initialized {
            return false;
        }
        self.initialized = false;
        true
    }

    /// Replace the configuration. Returns whether the radio is initialized,
    /// in which case the new configuration must be applied to it.
    pub fn update_config(&mut self, config: RadioConfig) -> (apply: bool)
        ensures
            final(self).spec_config() == config,
            final(self).spec_initialized() == old(self).spec_initialized(),
            apply == old(self).spec_initialized(),
    {
        self.config = config;
        self.initialized
    }

    /// Set the 802.15.4 channel. Returns whether the radio must be told.
    pub fn set_channel(&mut self, channel: u8) -> (apply: bool)
        ensures
            final(self).spec_config() == (RadioConfig { channel, ..old(self).spec_config() }),
            final(self).spec_initialized() == old(self).spec_initialized(),
            apply == old(self).spec_initialized(),
    {
        self.config.channel = channel;
        self.initialized
    }

    /// Set the PAN ID (applied with the full configuration).
    pub fn set_pan_id(&mut self, pan_id: u16)
        ensures
            final(self).spec_config() == (RadioConfig { pan_id, ..old(self).spec_config() }),
            final(self).spec_initialized() == old(self).spec_initialized(),
    {
        self.config.pan_id = pan_id;
    }

    /// Set the short address (applied with the full configuration).
    pub fn set_short_addr(&mut self, addr: u16)
        ensures
            final(self).spec_config() == (RadioConfig { short_addr: addr, ..old(self).spec_config() }),
            final(self).spec_initialized() == old(self).spec_initialized(),
    {
        self.config.short_addr = addr;
    }

    /// Set the IEEE address. Returns whether the radio must be told.
    pub fn set_ieee_addr(&mut self, addr: &[u8; 8]) -> (apply: bool)
        ensures
            final(self).spec_config() == (RadioConfig { ieee_addr: *addr, ..old(self).spec_config() }),
            final(self).spec_initialized() == old(self).spec_initialized(),
            apply == old(self).spec_initialized(),
    {
        self.config.ieee_addr = *addr;
        self.initialized
    }

    /// Set the TX power. Returns whether the radio must be told.
    pub fn set_tx_power(&mut self, dbm: i8) -> (apply: bool)
        ensures
            final(self).spec_config() == (RadioConfig { tx_power_dbm: dbm, ..old(self).spec_config() }),
            final(self).spec_initialized() == old(self).spec_initialized(),
            apply == old(self).spec_initialized(),
    {
        self.config.tx_power_dbm = dbm;
        self.initialized
    }

    /// Enable or disable the receiver when idle. Returns whether the radio
    /// must be told.
    pub fn set_rx_on_when_idle(&mut self, on: bool) -> (apply: bool)
        ensures
            final(self).spec_config() == (RadioConfig { rx_on_when_idle: on, ..old(self).spec_config() }),
            final(self).spec_initialized() == old(self).spec_initialized(),
            apply == old(self).spec_initialized(),
    {
        self.config.rx_on_when_idle = on;
        self.initialized
    }
}

} // verus!
