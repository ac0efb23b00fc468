use zigbee_stack::runtime::log_nv::{FlashDriver, LogStructuredNv};
use zigbee_stack::runtime::nv::{raw_to_nv_item_id, NvError, NvItemId};
use zigbee_stack::runtime::ram_flash::RamFlash;

fn bytes(nv: &LogStructuredNv<RamFlash>, offset: usize, len: usize) -> Vec<u8> {
    nv.flash().bytes()[offset..offset + len].to_vec()
}

const PAGE_A: u32 = 0x0000;
const PAGE_B: u32 = 0x1000;

fn fresh(sector: usize) -> LogStructuredNv<RamFlash> {
    LogStructuredNv::new(RamFlash::new(0x2000, sector), PAGE_A, PAGE_B)
}

#[test]
fn write_then_read_back() {
    let mut nv = fresh(4096);
    nv.write(NvItemId::NwkChannel, &[15]).unwrap();
    let mut buf = [0u8; 4];
    let len = nv.read(NvItemId::NwkChannel, &mut buf).unwrap();
    assert_eq!(&buf[..len], &[15]);
    assert!(nv.has_item(NvItemId::NwkChannel));
    assert!(!nv.has_item(NvItemId::NwkKey));
    assert_eq!(nv.item_length(NvItemId::NwkChannel), Ok(1));
    assert_eq!(nv.item_length(NvItemId::NwkKey), Err(NvError::NotFound));
    assert_eq!(nv.read(NvItemId::NwkKey, &mut buf), Err(NvError::NotFound));
}

#[test]
fn record_layout_on_flash() {
    let mut nv = fresh(4096);
    nv.write(NvItemId::NwkPanId, &[0x62, 0x1A, 0x33]).unwrap();
    assert_eq!(
        bytes(&nv, 0, 16),
        vec![0x5A, 0xA5, 0x01, 0x00, 0x03, 0x00, 0x00, 0x00, 0x62, 0x1A, 0x33, 0xFF, 0xFF, 0xFF, 0xFF, 0xFF]
    );
}

#[test]
fn latest_write_wins() {
    let mut nv = fresh(4096);
    nv.write(NvItemId::NwkFrameCounter, &1u32.to_le_bytes()).unwrap();
    nv.write(NvItemId::NwkShortAddress, &[0x34, 0x12]).unwrap();
    nv.write(NvItemId::NwkFrameCounter, &2u32.to_le_bytes()).unwrap();
    let mut buf = [0u8; 8];
    let len = nv.read(NvItemId::NwkFrameCounter, &mut buf).unwrap();
    assert_eq!(&buf[..len], &2u32.to_le_bytes());
    let len = nv.read(NvItemId::NwkShortAddress, &mut buf).unwrap();
    assert_eq!(&buf[..len], &[0x34, 0x12]);
}

#[test]
fn delete_hides_item() {
    let mut nv = fresh(4096);
    nv.write(NvItemId::ApsLinkKey, &[1, 2, 3, 4]).unwrap();
    nv.delete(NvItemId::ApsLinkKey).unwrap();
    let mut buf = [0u8; 16];
    assert_eq!(nv.read(NvItemId::ApsLinkKey, &mut buf), Err(NvError::NotFound));
    assert!(!nv.has_item(NvItemId::ApsLinkKey));
    nv.write(NvItemId::ApsLinkKey, &[9]).unwrap();
    assert_eq!(nv.read(NvItemId::ApsLinkKey, &mut buf), Ok(1));
}

#[test]
fn newest_record_longer_than_buffer_is_buffer_too_small() {
    let mut nv = fresh(4096);
    nv.write(NvItemId::NwkKey, &[1, 2]).unwrap();
    nv.write(NvItemId::NwkKey, &[3, 4, 5, 6]).unwrap();
    let mut small = [0xEEu8; 2];
    assert_eq!(nv.read(NvItemId::NwkKey, &mut small), Err(NvError::BufferTooSmall));
    assert_eq!(small, [0xEE, 0xEE]);
    let mut tiny = [0u8; 1];
    assert_eq!(nv.read(NvItemId::NwkKey, &mut tiny), Err(NvError::BufferTooSmall));
    assert!(nv.has_item(NvItemId::NwkKey));
    assert_eq!(nv.item_length(NvItemId::NwkKey), Ok(4));
    let mut exact = [0u8; 4];
    assert_eq!(nv.read(NvItemId::NwkKey, &mut exact), Ok(4));
    assert_eq!(exact, [3, 4, 5, 6]);
}

#[test]
fn read_leaves_buffer_alone_when_not_found() {
    let mut nv = fresh(4096);
    nv.write(NvItemId::NwkDepth, &[3]).unwrap();
    nv.delete(NvItemId::NwkDepth).unwrap();
    let mut buf = [0xABu8; 4];
    assert_eq!(nv.read(NvItemId::NwkDepth, &mut buf), Err(NvError::NotFound));
    assert_eq!(nv.read(NvItemId::NwkKey, &mut buf), Err(NvError::NotFound));
    assert_eq!(buf, [0xAB; 4]);
}

#[test]
fn read_keeps_tail_of_larger_buffer() {
    let mut nv = fresh(4096);
    nv.write(NvItemId::NwkUpdateId, &[7, 8]).unwrap();
    let mut buf = [0x11u8; 5];
    assert_eq!(nv.read(NvItemId::NwkUpdateId, &mut buf), Ok(2));
    assert_eq!(buf, [7, 8, 0x11, 0x11, 0x11]);
}

#[test]
fn restart_after_compaction_reads_the_same() {
    let mut nv = fresh(64);
    for i in 0..5u8 {
        nv.write(NvItemId::NwkFrameCounter, &[i, 0, 0, 0]).unwrap();
    }
    nv.write(NvItemId::NwkPanId, &[0x62, 0x1A]).unwrap();
    nv.delete(NvItemId::NwkPanId).unwrap();
    let nv2 = LogStructuredNv::new(nv.into_flash(), PAGE_A, PAGE_B);
    let mut buf = [0u8; 8];
    assert_eq!(nv2.read(NvItemId::NwkFrameCounter, &mut buf), Ok(4));
    assert_eq!(&buf[..4], &[4, 0, 0, 0]);
    assert_eq!(nv2.read(NvItemId::NwkPanId, &mut buf), Err(NvError::NotFound));
    assert!(!nv2.has_item(NvItemId::NwkPanId));
}

#[test]
fn storage_survives_restart() {
    let mut nv = fresh(4096);
    nv.write(NvItemId::BdbNodeIsOnNetwork, &[1]).unwrap();
    nv.write(NvItemId::NwkChannel, &[20]).unwrap();
    let mut nv2 = LogStructuredNv::new(nv.into_flash(), PAGE_A, PAGE_B);
    let mut buf = [0u8; 4];
    assert_eq!(nv2.read(NvItemId::NwkChannel, &mut buf), Ok(1));
    assert_eq!(buf[0], 20);
    // new records are appended after the old ones
    nv2.write(NvItemId::NwkChannel, &[25]).unwrap();
    assert_eq!(bytes(&nv2, 24, 2), vec![0x5A, 0xA5]);
    assert_eq!(nv2.read(NvItemId::NwkChannel, &mut buf), Ok(1));
    assert_eq!(buf[0], 25);
}

#[test]
fn page_b_is_picked_when_only_it_has_data() {
    let mut f = RamFlash::new(0x2000, 4096);
    f.write(PAGE_B, &[0x5A, 0xA5, 0x02, 0x00, 0x01, 0x00, 0x00, 0x00, 0x0B, 0xFF, 0xFF, 0xFF]);
    let nv = LogStructuredNv::new(f, PAGE_A, PAGE_B);
    let mut buf = [0u8; 4];
    assert_eq!(nv.read(NvItemId::NwkChannel, &mut buf), Ok(1));
    assert_eq!(buf[0], 0x0B);
}

#[test]
fn both_pages_with_data_keeps_a_and_erases_b() {
    let mut f = RamFlash::new(0x2000, 4096);
    f.write(PAGE_A, &[0x5A, 0xA5, 0x02, 0x00, 0x01, 0x00, 0x00, 0x00, 0x0C, 0xFF, 0xFF, 0xFF]);
    f.write(PAGE_B, &[0x5A, 0xA5, 0x02, 0x00, 0x01, 0x00, 0x00, 0x00, 0x0D, 0xFF, 0xFF, 0xFF]);
    let nv = LogStructuredNv::new(f, PAGE_A, PAGE_B);
    let mut buf = [0u8; 4];
    assert_eq!(nv.read(NvItemId::NwkChannel, &mut buf), Ok(1));
    assert_eq!(buf[0], 0x0C);
    assert_eq!(bytes(&nv, PAGE_B as usize, 12), vec![0xFF; 12]);
}

#[test]
fn compaction_keeps_latest_values() {
    // 64-byte sectors: a record of 4 data bytes takes 12 bytes, so five fit
    let mut nv = fresh(64);
    for i in 0..5u8 {
        nv.write(NvItemId::NwkFrameCounter, &[i, 0, 0, 0]).unwrap();
    }
    nv.write(NvItemId::NwkPanId, &[0x62, 0x1A]).unwrap();
    // the sixth record did not fit: page A was compacted into page B
    assert_eq!(bytes(&nv, PAGE_A as usize, 8), vec![0xFF; 8]);
    assert_eq!(bytes(&nv, PAGE_B as usize, 2), vec![0x5A, 0xA5]);
    let mut buf = [0u8; 8];
    assert_eq!(nv.read(NvItemId::NwkFrameCounter, &mut buf), Ok(4));
    assert_eq!(&buf[..4], &[4, 0, 0, 0]);
    assert_eq!(nv.read(NvItemId::NwkPanId, &mut buf), Ok(2));
    assert_eq!(&buf[..2], &[0x62, 0x1A]);
}

#[test]
fn explicit_compaction_drops_deleted_items() {
    let mut nv = fresh(4096);
    nv.write(NvItemId::NwkKey, &[1; 16]).unwrap();
    nv.write(NvItemId::NwkDepth, &[2]).unwrap();
    nv.delete(NvItemId::NwkKey).unwrap();
    assert_eq!(nv.compact(), Ok(()));
    // page B now holds only the depth record, then erased flash
    assert_eq!(bytes(&nv, PAGE_B as usize, 12), vec![0x5A, 0xA5, 0x09, 0x00, 0x01, 0x00, 0x00, 0x00, 2, 0xFF, 0xFF, 0xFF]);
    assert_eq!(bytes(&nv, PAGE_B as usize + 12, 4), vec![0xFF; 4]);
    let mut buf = [0u8; 32];
    assert_eq!(nv.read(NvItemId::NwkKey, &mut buf), Err(NvError::NotFound));
    assert_eq!(nv.read(NvItemId::NwkDepth, &mut buf), Ok(1));
}

#[test]
fn item_too_large_for_page_is_full() {
    let mut nv = fresh(64);
    assert_eq!(nv.write(NvItemId::ApsBindingTable, &[0u8; 100]), Err(NvError::Full));
    nv.write(NvItemId::ApsGroupTable, &[7; 8]).unwrap();
    let mut buf = [0u8; 8];
    assert_eq!(nv.read(NvItemId::ApsGroupTable, &mut buf), Ok(8));
}

#[test]
fn item_codes_round_trip() {
    let all = [
        NvItemId::NwkPanId,
        NvItemId::NwkChannel,
        NvItemId::NwkShortAddress,
        NvItemId::NwkExtendedPanId,
        NvItemId::NwkIeeeAddress,
        NvItemId::NwkKey,
        NvItemId::NwkKeySeqNum,
        NvItemId::NwkFrameCounter,
        NvItemId::NwkDepth,
        NvItemId::NwkParentAddress,
        NvItemId::NwkUpdateId,
        NvItemId::ApsTrustCenterAddress,
        NvItemId::ApsLinkKey,
        NvItemId::ApsBindingTable,
        NvItemId::ApsGroupTable,
        NvItemId::BdbNodeIsOnNetwork,
        NvItemId::BdbCommissioningMode,
        NvItemId::BdbPrimaryChannelSet,
        NvItemId::BdbSecondaryChannelSet,
        NvItemId::BdbCommissioningGroupId,
        NvItemId::AppEndpoint1,
        NvItemId::AppEndpoint2,
        NvItemId::AppEndpoint3,
        NvItemId::AppCustomBase,
    ];
    for id in all {
        assert_eq!(raw_to_nv_item_id(id.raw()), Some(id));
    }
    assert_eq!(NvItemId::NwkUpdateId.raw(), 0x000B);
    assert_eq!(NvItemId::ApsTrustCenterAddress.raw(), 0x0020);
    assert_eq!(NvItemId::BdbCommissioningGroupId.raw(), 0x0044);
    assert_eq!(NvItemId::AppEndpoint3.raw(), 0x0102);
    assert_eq!(raw_to_nv_item_id(0x0305), Some(NvItemId::AppCustomBase));
    assert_eq!(raw_to_nv_item_id(0x000C), None);
    assert_eq!(raw_to_nv_item_id(0x0000), None);
    assert_eq!(raw_to_nv_item_id(0x01FF), None);
}

#[test]
fn every_item_survives_compaction_on_a_large_sector() {
    let all = [
        NvItemId::NwkPanId,
        NvItemId::NwkChannel,
        NvItemId::NwkShortAddress,
        NvItemId::NwkExtendedPanId,
        NvItemId::NwkIeeeAddress,
        NvItemId::NwkKey,
        NvItemId::NwkKeySeqNum,
        NvItemId::NwkFrameCounter,
        NvItemId::NwkDepth,
        NvItemId::NwkParentAddress,
        NvItemId::NwkUpdateId,
        NvItemId::ApsTrustCenterAddress,
        NvItemId::ApsLinkKey,
        NvItemId::ApsBindingTable,
        NvItemId::ApsGroupTable,
        NvItemId::BdbNodeIsOnNetwork,
        NvItemId::BdbCommissioningMode,
        NvItemId::BdbPrimaryChannelSet,
        NvItemId::BdbSecondaryChannelSet,
        NvItemId::BdbCommissioningGroupId,
        NvItemId::AppEndpoint1,
        NvItemId::AppEndpoint2,
        NvItemId::AppEndpoint3,
        NvItemId::AppCustomBase,
    ];
    let mut nv = fresh(4096);
    for (k, id) in all.iter().enumerate() {
        nv.write(*id, &[k as u8; 128]).unwrap();
    }
    // small rewrites of one item until the page has been compacted
    for i in 0..100u8 {
        nv.write(NvItemId::NwkChannel, &[i]).unwrap();
    }
    assert_eq!(bytes(&nv, PAGE_A as usize, 8), vec![0xFF; 8]);
    let mut buf = [0u8; 128];
    for (k, id) in all.iter().enumerate() {
        if *id == NvItemId::NwkChannel {
            assert_eq!(nv.read(*id, &mut buf), Ok(1));
            assert_eq!(buf[0], 99);
        } else {
            assert_eq!(nv.read(*id, &mut buf), Ok(128));
            assert_eq!(buf, [k as u8; 128]);
        }
    }
}

#[test]
fn read_after_write_through_other_operations() {
    let mut nv = fresh(4096);
    nv.write(NvItemId::NwkKey, &[0xAA; 16]).unwrap();
    nv.write(NvItemId::NwkPanId, &[0x62, 0x1A]).unwrap();
    nv.delete(NvItemId::NwkPanId).unwrap();
    assert_eq!(nv.compact(), Ok(()));
    nv.write(NvItemId::NwkDepth, &[4]).unwrap();
    assert_eq!(nv.compact(), Ok(()));
    let mut buf = [0u8; 16];
    assert_eq!(nv.read(NvItemId::NwkKey, &mut buf), Ok(16));
    assert_eq!(buf, [0xAA; 16]);
    assert_eq!(nv.item_length(NvItemId::NwkKey), Ok(16));
    assert_eq!(nv.read(NvItemId::NwkPanId, &mut buf), Err(NvError::NotFound));
    // back on page A: the key record first, then the depth
    assert_eq!(bytes(&nv, PAGE_A as usize, 4), vec![0x5A, 0xA5, 0x06, 0x00]);
    assert_eq!(bytes(&nv, PAGE_A as usize + 24, 4), vec![0x5A, 0xA5, 0x09, 0x00]);
}

#[test]
fn compaction_copies_latest_version_that_fits_the_copy_buffer() {
    let mut f = RamFlash::new(0x2000, 4096);
    // a 4-byte version of the key, then a 200-byte one written by someone else
    f.write(PAGE_A, &[0x5A, 0xA5, 0x06, 0x00, 0x04, 0x00, 0x00, 0x00, 1, 2, 3, 4]);
    let mut long = vec![0x5A, 0xA5, 0x06, 0x00, 200, 0x00, 0x00, 0x00];
    long.extend_from_slice(&[0x33; 200]);
    f.write(PAGE_A + 12, &long);
    let mut nv = LogStructuredNv::new(f, PAGE_A, PAGE_B);
    assert_eq!(nv.item_length(NvItemId::NwkKey), Ok(200));
    let mut buf = [0u8; 128];
    assert_eq!(nv.read(NvItemId::NwkKey, &mut buf), Err(NvError::BufferTooSmall));
    assert_eq!(nv.compact(), Ok(()));
    assert_eq!(nv.read(NvItemId::NwkKey, &mut buf), Ok(4));
    assert_eq!(&buf[..4], &[1, 2, 3, 4]);
}
