use zigbee_stack::mac::backends::{Cc26xxMac, Efr32Mac, Stm32wbMac};
use zigbee_stack::mac::cc2340::{
    cca_outcome, check_tx_frame, compute_mhr_len, rx_frame_acceptable, rx_frame_from_buffer, tx_outcome,
    tx_result_from_status, Cc2340Driver, RadioConfig, RadioError, RclCommandStatus, RclStopType, TxResult,
};
use zigbee_stack::mac::esp::rx_frame_from_raw;

#[test]
fn tx_status_mapping() {
    assert_eq!(tx_result_from_status(0), TxResult::Success);
    assert_eq!(tx_result_from_status(1), TxResult::ChannelBusy);
    assert_eq!(tx_result_from_status(2), TxResult::NoAck);
    assert_eq!(tx_result_from_status(3), TxResult::Error);
    assert_eq!(tx_result_from_status(0xFF), TxResult::Error);
    assert_eq!(tx_outcome(TxResult::Success), Ok(()));
    assert_eq!(tx_outcome(TxResult::ChannelBusy), Err(RadioError::ChannelBusy));
    assert_eq!(tx_outcome(TxResult::NoAck), Err(RadioError::NoAck));
    assert_eq!(tx_outcome(TxResult::Error), Err(RadioError::TxFailed));
}

#[test]
fn tx_frame_bounds() {
    assert_eq!(check_tx_frame(&[]), Err(RadioError::TxFailed));
    assert_eq!(check_tx_frame(&[0u8; 1]), Ok(()));
    assert_eq!(check_tx_frame(&[0u8; 127]), Ok(()));
    assert_eq!(check_tx_frame(&[0u8; 128]), Err(RadioError::TxFailed));
}

#[test]
fn cca_results() {
    assert_eq!(cca_outcome(0, -70), Ok(-70));
    assert_eq!(cca_outcome(1, -70), Err(RadioError::ChannelBusy));
    assert_eq!(cca_outcome(-1, -20), Err(RadioError::ChannelBusy));
}

#[test]
fn rx_acceptance_and_buffer() {
    assert!(rx_frame_acceptable(10, true));
    assert!(!rx_frame_acceptable(0, true));
    assert!(!rx_frame_acceptable(128, true));
    assert!(rx_frame_acceptable(127, true));
    assert!(!rx_frame_acceptable(10, false));
    let buf = [7u8; 129];
    assert!(matches!(rx_frame_from_buffer(&buf, 0, -50, 100), Err(RadioError::Timeout)));
    let f = rx_frame_from_buffer(&buf, 5, -50, 100).ok().unwrap();
    assert_eq!(f.len, 5);
    assert_eq!(f.rssi, -50);
    assert_eq!(f.lqi, 100);
    assert_eq!(&f.data[..5], &[7; 5]);
    assert_eq!(&f.data[5..], &[0u8; 122][..]);
}

#[test]
fn mhr_lengths() {
    assert_eq!(compute_mhr_len(&[0x61]), 0);
    // data frame, pan compress, dst short, src short: 3 + 4 + 2
    assert_eq!(compute_mhr_len(&[0x61, 0x88, 0x01]), 9);
    // beacon request: 3 + 4
    assert_eq!(compute_mhr_len(&[0x03, 0x08]), 7);
}

#[test]
fn codes() {
    assert_eq!(RclCommandStatus::Finished.code(), 0x0101);
    assert_eq!(RclCommandStatus::Error.code(), 0x0F00);
    assert_eq!(RclStopType::Graceful.code(), 0);
    assert_eq!(RclStopType::Hard.code(), 1);
}

#[test]
fn driver_state() {
    let cfg = RadioConfig::default();
    assert_eq!(cfg.channel, 11);
    assert_eq!(cfg.pan_id, 0xFFFF);
    assert_eq!(cfg.short_addr, 0xFFFF);
    assert!(cfg.auto_ack);
    assert!(!cfg.rx_on_when_idle);
    let mut d = Cc2340Driver::new(cfg);
    assert!(!d.is_initialized());
    assert!(!d.set_channel(15));
    assert_eq!(d.config().channel, 15);
    assert!(d.init());
    assert!(!d.init());
    assert!(d.set_tx_power(-4));
    assert_eq!(d.config().tx_power_dbm, -4);
    d.set_pan_id(0x1A62);
    d.set_short_addr(0x796F);
    assert_eq!(d.config().pan_id, 0x1A62);
    assert_eq!(d.config().short_addr, 0x796F);
    assert!(d.set_ieee_addr(&[1, 2, 3, 4, 5, 6, 7, 8]));
    assert_eq!(d.config().ieee_addr, [1, 2, 3, 4, 5, 6, 7, 8]);
    assert!(d.set_rx_on_when_idle(true));
    assert!(d.config().rx_on_when_idle);
    let mut other = RadioConfig::default();
    other.channel = 26;
    assert!(d.update_config(other));
    assert_eq!(d.config().channel, 26);
    assert!(d.deinit());
    assert!(!d.deinit());
    assert!(!d.update_config(RadioConfig::default()));
}

#[test]
fn esp_raw_frame() {
    let mut raw = [0u8; 129];
    raw[0] = 12; // 10 MAC bytes + FCS
    for i in 1..129 {
        raw[i] = i as u8;
    }
    let rx = rx_frame_from_raw(&raw);
    assert_eq!(rx.len, 10);
    assert_eq!(rx.lqi, 128);
    assert_eq!(&rx.data[..10], &[1, 2, 3, 4, 5, 6, 7, 8, 9, 10]);
    assert_eq!(rx.data[10], 0);
    raw[0] = 1;
    assert_eq!(rx_frame_from_raw(&raw).len, 0);
    raw[0] = 127;
    let rx = rx_frame_from_raw(&raw);
    assert_eq!(rx.len, 125);
    assert_eq!(rx.data[124], 125);
    assert_eq!(rx.data[125], 0);
}

#[test]
fn other_backends_start_unassigned() {
    let _ = Cc26xxMac::new();
    let _ = Efr32Mac::new();
    let _ = Stm32wbMac::new();
}
