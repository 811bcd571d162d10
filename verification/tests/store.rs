//! Scenario tests for the history store: the shared update-in-place-or-append
//! pattern, the out-of-order stake path, the epoch-credits backfill and its
//! early stop, and the gossip watermarks.

use validator_history::ContactInfo;
use validator_history::GossipVersion;
use validator_history::IpAddress;
use validator_history::LegacyContactInfo;
use validator_history::LegacyVersion;
use validator_history::MAX_ITEMS;
use validator_history::SemanticVersion;
use validator_history::SocketAddress;
use validator_history::ValidatorHistory;
use validator_history::ValidatorHistoryEntry;
use validator_history::ValidatorHistoryError;
use validator_history::Version2;

fn fresh() -> ValidatorHistory {
    ValidatorHistory::new([7u8; 32], 3, 255)
}

fn contact(octets: [u8; 4]) -> ContactInfo {
    ContactInfo {
        addrs: vec![IpAddress::V4(octets)],
        version: GossipVersion { client: 1, major: 2, minor: 3, patch: 4 },
    }
}

#[test]
fn new_store_is_all_sentinel_and_empty() {
    let h = fresh();
    assert_eq!(h.struct_version, 0);
    assert_eq!(h.vote_account, [7u8; 32]);
    assert_eq!(h.index, 3);
    assert_eq!(h.bump, 255);
    assert_eq!(h.last_ip_timestamp, 0);
    assert_eq!(h.last_version_timestamp, 0);
    assert_eq!(h.history.is_empty, 1);
    assert_eq!(h.history.idx, 0);
    assert_eq!(h.history.arr.len(), MAX_ITEMS);
    let unset = ValidatorHistoryEntry::default();
    for e in h.history.arr.iter() {
        assert!(*e == unset);
    }
}

#[test]
fn mev_commission_appends_then_updates_in_place() {
    let mut h = fresh();
    assert!(h.set_mev_commission(4, 120).is_ok());
    assert_eq!(h.history.is_empty, 0);
    assert_eq!(h.history.idx, 1);
    let e = h.history.last().unwrap();
    assert_eq!(e.epoch, 4);
    assert_eq!(e.mev_commission, 120);
    assert_eq!(e.commission, u8::MAX);
    assert_eq!(e.activated_stake_lamports, u64::MAX);

    assert!(h.set_mev_commission(4, 90).is_ok());
    assert_eq!(h.history.idx, 1);
    assert_eq!(h.history.last().unwrap().mev_commission, 90);

    assert!(h.set_mev_commission(5, 80).is_ok());
    assert_eq!(h.history.idx, 2);
    assert_eq!(h.history.last().unwrap().epoch, 5);
}

#[test]
fn same_setter_twice_leaves_state_unchanged() {
    let mut h = fresh();
    assert!(h.set_stake(9, 1_000, 17, true).is_ok());
    let arr_once = h.history.arr.clone();
    let idx_once = h.history.idx;
    assert!(h.set_stake(9, 1_000, 17, true).is_ok());
    assert_eq!(h.history.idx, idx_once);
    assert!(h.history.arr == arr_once);
}

#[test]
fn commission_and_slot_recorded_together() {
    let mut h = fresh();
    assert!(h.set_commission_and_slot(2, 5, 123_456).is_ok());
    let e = h.history.last().unwrap();
    assert_eq!(e.epoch, 2);
    assert_eq!(e.commission, 5);
    assert_eq!(e.vote_account_last_update_slot, 123_456);
    assert_eq!(e.mev_commission, u16::MAX);
}

#[test]
fn stake_update_in_place_out_of_order() {
    let mut h = fresh();
    assert!(h.set_stake(10, 100, 3, false).is_ok());
    assert!(h.set_stake(11, 110, 2, false).is_ok());
    assert!(h.set_stake(12, 120, 1, true).is_ok());
    let idx_before = h.history.idx;

    assert!(h.set_stake(11, 999, 9, true).is_ok());

    assert_eq!(h.history.idx, idx_before);
    let last = h.history.last().unwrap();
    assert_eq!(last.epoch, 12);
    assert_eq!(last.activated_stake_lamports, 120);
    let slot11 = h.history.arr.iter().find(|e| e.epoch == 11).unwrap();
    assert_eq!(slot11.activated_stake_lamports, 999);
    assert_eq!(slot11.rank, 9);
    assert_eq!(slot11.is_superminority, 1);
    let occupied = h.history.arr.iter().filter(|e| e.epoch != u16::MAX).count();
    assert_eq!(occupied, 3);
}

#[test]
fn stake_epoch_out_of_range_leaves_buffer_unchanged() {
    let mut h = fresh();
    for epoch in 100..100 + MAX_ITEMS as u16 {
        assert!(h.set_mev_commission(epoch, 42).is_ok());
    }
    let arr_before = h.history.arr.clone();
    let idx_before = h.history.idx;

    let r = h.set_stake(99, 5_000, 1, false);
    assert!(r == Err(ValidatorHistoryError::EpochOutOfRange));
    assert_eq!(h.history.idx, idx_before);
    assert!(h.history.arr == arr_before);
}

#[test]
fn ring_wraparound_evicts_oldest() {
    let mut h = fresh();
    for epoch in 0..(MAX_ITEMS as u16 + 1) {
        assert!(h.set_mev_commission(epoch, epoch).is_ok());
    }
    assert_eq!(h.history.is_empty, 0);
    let last = h.history.last().unwrap();
    assert_eq!(last.epoch, MAX_ITEMS as u16);
    assert!(h.history.arr.iter().all(|e| e.epoch != 0));
    let r = h.set_stake(0, 1, 1, false);
    assert!(r == Err(ValidatorHistoryError::EpochOutOfRange));
}

#[test]
fn epoch_credits_backfills_and_stops_at_absent_epoch() {
    let mut h = fresh();
    assert!(h.set_mev_commission(100, 0).is_ok());
    assert!(h.set_mev_commission(101, 0).is_ok());
    assert!(h.set_mev_commission(102, 0).is_ok());

    let batch = [(100u64, 5u64, 0u64), (101, 12, 5), (102, 21, 12)];
    assert!(h.set_epoch_credits(&batch).is_ok());

    let credits_of = |h: &ValidatorHistory, epoch: u16| {
        h.history.arr.iter().find(|e| e.epoch == epoch).unwrap().epoch_credits
    };
    assert_eq!(credits_of(&h, 100), 5);
    assert_eq!(credits_of(&h, 101), 7);
    assert_eq!(credits_of(&h, 102), 9);
}

#[test]
fn epoch_credits_early_stop_on_first_unchanged_entry() {
    let mut h = fresh();
    assert!(h.set_mev_commission(100, 0).is_ok());
    assert!(h.set_mev_commission(101, 0).is_ok());
    assert!(h.set_mev_commission(102, 0).is_ok());
    assert!(h.set_epoch_credits(&[(100u64, 5u64, 0u64), (101, 12, 5), (102, 21, 12)]).is_ok());

    // The new batch changes epoch 101's delta to 8, but the walk starts at
    // the most recent entry (102), finds its stored credits unchanged, and
    // stops at once: nothing is overwritten.
    assert!(h.set_epoch_credits(&[(100u64, 5u64, 0u64), (101, 13, 5), (102, 22, 13)]).is_ok());

    let credits_of = |h: &ValidatorHistory, epoch: u16| {
        h.history.arr.iter().find(|e| e.epoch == epoch).unwrap().epoch_credits
    };
    assert_eq!(credits_of(&h, 100), 5);
    assert_eq!(credits_of(&h, 101), 7);
    assert_eq!(credits_of(&h, 102), 9);
}

#[test]
fn epoch_credits_empty_batch_is_noop() {
    let mut h = fresh();
    assert!(h.set_mev_commission(1, 10).is_ok());
    let arr_before = h.history.arr.clone();
    assert!(h.set_epoch_credits(&[]).is_ok());
    assert!(h.history.arr == arr_before);
}

#[test]
fn epoch_credits_negative_delta_rejected_without_write() {
    let mut h = fresh();
    assert!(h.set_mev_commission(7, 10).is_ok());
    let arr_before = h.history.arr.clone();
    let r = h.set_epoch_credits(&[(7u64, 3u64, 10u64)]);
    assert!(r == Err(ValidatorHistoryError::InvalidEpochCredits));
    assert!(h.history.arr == arr_before);
}

#[test]
fn contact_info_records_ip_type_and_version() {
    let mut h = fresh();
    let ci = contact([10, 0, 0, 1]);
    assert!(h.set_contact_info(6, &ci, 100).is_ok());
    assert_eq!(h.last_ip_timestamp, 100);
    assert_eq!(h.last_version_timestamp, 100);
    let e = h.history.last().unwrap();
    assert_eq!(e.epoch, 6);
    assert_eq!(e.ip, [10, 0, 0, 1]);
    assert_eq!(e.client_type, 1);
    assert_eq!(e.version.major, 2);
    assert_eq!(e.version.minor, 3);
    assert_eq!(e.version.patch, 4);
}

#[test]
fn contact_info_rejects_non_ipv4() {
    let mut h = fresh();
    let ci = ContactInfo {
        addrs: vec![IpAddress::V6([1u8; 16])],
        version: GossipVersion { client: 0, major: 1, minor: 0, patch: 0 },
    };
    let r = h.set_contact_info(6, &ci, 100);
    assert!(r == Err(ValidatorHistoryError::UnsupportedAddressFormat));
    assert_eq!(h.last_ip_timestamp, 0);
    assert_eq!(h.history.is_empty, 1);
}

#[test]
fn stale_contact_info_is_rejected_and_state_kept() {
    let mut h = fresh();
    assert!(h.set_contact_info(6, &contact([10, 0, 0, 1]), 100).is_ok());
    let r = h.set_contact_info(6, &contact([192, 168, 0, 1]), 50);
    assert!(r == Err(ValidatorHistoryError::StaleUpdate));
    assert_eq!(h.last_ip_timestamp, 100);
    assert_eq!(h.last_version_timestamp, 100);
    let e = h.history.last().unwrap();
    assert_eq!(e.ip, [10, 0, 0, 1]);
    assert_eq!(e.version.major, 2);
}

#[test]
fn legacy_contact_info_touches_only_ip_and_ip_watermark() {
    let mut h = fresh();
    let lci = LegacyContactInfo {
        gossip: SocketAddress { ip: IpAddress::V4([172, 16, 0, 9]), port: 8000 },
    };
    assert!(h.set_legacy_contact_info(3, &lci, 77).is_ok());
    assert_eq!(h.last_ip_timestamp, 77);
    assert_eq!(h.last_version_timestamp, 0);
    let e = h.history.last().unwrap();
    assert_eq!(e.ip, [172, 16, 0, 9]);
    assert_eq!(e.client_type, u8::MAX);
    assert_eq!(e.version.major, u8::MAX);

    let stale = h.set_legacy_contact_info(3, &lci, 76);
    assert!(stale == Err(ValidatorHistoryError::StaleUpdate));

    let v6 = LegacyContactInfo {
        gossip: SocketAddress { ip: IpAddress::V6([2u8; 16]), port: 8000 },
    };
    let bad = h.set_legacy_contact_info(3, &v6, 200);
    assert!(bad == Err(ValidatorHistoryError::UnsupportedAddressFormat));
    assert_eq!(h.last_ip_timestamp, 77);
}

#[test]
fn version_updates_truncate_to_low_byte_and_guard_watermark() {
    let mut h = fresh();
    let v = Version2 { version: SemanticVersion { major: 0x0102, minor: 0x0203, patch: 0x0405 } };
    assert!(h.set_version(8, &v, 40).is_ok());
    assert_eq!(h.last_version_timestamp, 40);
    assert_eq!(h.last_ip_timestamp, 0);
    let e = h.history.last().unwrap();
    assert_eq!(e.epoch, 8);
    assert_eq!(e.version.major, 0x02);
    assert_eq!(e.version.minor, 0x03);
    assert_eq!(e.version.patch, 0x0405);

    let older = Version2 { version: SemanticVersion { major: 9, minor: 9, patch: 9 } };
    let r = h.set_version(8, &older, 39);
    assert!(r == Err(ValidatorHistoryError::StaleUpdate));
    assert_eq!(h.history.last().unwrap().version.patch, 0x0405);

    let lv = LegacyVersion { version: SemanticVersion { major: 1, minor: 14, patch: 17 } };
    assert!(h.set_legacy_version(8, &lv, 41).is_ok());
    assert_eq!(h.last_version_timestamp, 41);
    let e = h.history.last().unwrap();
    assert_eq!(e.version.major, 1);
    assert_eq!(e.version.minor, 14);
    assert_eq!(e.version.patch, 17);
}

#[test]
fn contact_info_same_timestamp_is_accepted() {
    let mut h = fresh();
    assert!(h.set_contact_info(6, &contact([10, 0, 0, 1]), 100).is_ok());
    assert!(h.set_contact_info(6, &contact([10, 0, 0, 2]), 100).is_ok());
    assert_eq!(h.history.last().unwrap().ip, [10, 0, 0, 2]);
}
