//! Tests for the circular buffer, the sentinel record, and the small
//! helpers around them.

use validator_history::CircBuf;
use validator_history::ClientVersion;
use validator_history::Config;
use validator_history::MAX_ITEMS;
use validator_history::ValidatorHistoryEntry;
use validator_history::ValidatorHistoryError;
use validator_history::cast_epoch;

fn entry_for(epoch: u16) -> ValidatorHistoryEntry {
    ValidatorHistoryEntry { epoch, ..Default::default() }
}

#[test]
fn fresh_entry_has_every_field_at_its_sentinel() {
    let e = ValidatorHistoryEntry::default();
    assert_eq!(e.activated_stake_lamports, u64::MAX);
    assert_eq!(e.epoch, u16::MAX);
    assert_eq!(e.mev_commission, u16::MAX);
    assert_eq!(e.epoch_credits, u32::MAX);
    assert_eq!(e.commission, u8::MAX);
    assert_eq!(e.client_type, u8::MAX);
    assert!(e.version == ClientVersion { major: u8::MAX, minor: u8::MAX, patch: u16::MAX });
    assert_eq!(e.ip, [255, 255, 255, 255]);
    assert_eq!(e.padding0, u8::MAX);
    assert_eq!(e.is_superminority, u8::MAX);
    assert_eq!(e.rank, u32::MAX);
    assert_eq!(e.vote_account_last_update_slot, u64::MAX);
    assert_eq!(e.padding1, [u8::MAX; 88]);
}

#[test]
fn empty_buffer_has_no_last() {
    let mut b = CircBuf::default();
    assert!(b.is_empty());
    assert!(b.last().is_none());
    assert!(b.last_mut().is_none());
    assert_eq!(b.arr_mut().len(), MAX_ITEMS);
}

#[test]
fn push_advances_cursor_and_marks_non_empty() {
    let mut b = CircBuf::default();
    b.push(entry_for(1));
    assert!(!b.is_empty());
    assert_eq!(b.idx, 1);
    assert_eq!(b.last().unwrap().epoch, 1);
    b.push(entry_for(2));
    assert_eq!(b.idx, 2);
    assert_eq!(b.last().unwrap().epoch, 2);
}

#[test]
fn pushing_one_past_capacity_wraps_and_overwrites() {
    let mut b = CircBuf::default();
    for epoch in 0..(MAX_ITEMS as u16 + 1) {
        b.push(entry_for(epoch));
    }
    assert!(!b.is_empty());
    assert_eq!(b.last().unwrap().epoch, MAX_ITEMS as u16);
    assert!(b.arr.iter().all(|e| e.epoch != 0));
    assert!(b.arr.iter().any(|e| e.epoch == 1));
}

#[test]
fn last_mut_edits_the_entry_at_the_cursor() {
    let mut b = CircBuf::default();
    b.push(entry_for(4));
    if let Some(e) = b.last_mut() {
        e.rank = 12;
    }
    assert_eq!(b.last().unwrap().rank, 12);
    assert_eq!(b.last().unwrap().epoch, 4);
}

#[test]
fn cast_epoch_wraps_below_the_sentinel() {
    assert_eq!(cast_epoch(0), 0);
    assert_eq!(cast_epoch(123), 123);
    assert_eq!(cast_epoch(65534), 65534);
    assert_eq!(cast_epoch(65535), 0);
    assert_eq!(cast_epoch(65536), 1);
}

#[test]
fn error_descriptions_name_each_failure() {
    assert_eq!(ValidatorHistoryError::EpochOutOfRange.describe(), "epoch out of range");
    assert_eq!(ValidatorHistoryError::InvalidEpochCredits.describe(), "invalid epoch credits");
    assert_eq!(ValidatorHistoryError::UnsupportedAddressFormat.describe(), "unsupported address format");
    assert_eq!(ValidatorHistoryError::StaleUpdate.describe(), "stale update");
}

#[test]
fn default_config_is_zeroed() {
    let c = Config::default();
    assert_eq!(c.tip_distribution_program, [0u8; 32]);
    assert_eq!(c.tip_distribution_authority, [0u8; 32]);
    assert_eq!(c.stake_authority, [0u8; 32]);
    assert_eq!(c.counter, 0);
    assert_eq!(c.bump, 0);
}
