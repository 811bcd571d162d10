//! The history store: one circular buffer of per-epoch records plus two
//! monotonic timestamp watermarks, and the typed update operations that
//! route incoming partial data into the buffer.
//!
//! Every update follows one shared pattern, update-in-place-or-append: if the
//! most recently written record is for the target epoch, its fields are
//! mutated in place; otherwise a fresh all-sentinel record for that epoch is
//! pushed, evicting the oldest slot. Each operation's exact effect is stated
//! by a spec-level transition function of the same name.

use vstd::prelude::*;

use crate::circbuf::BufState;
use crate::circbuf::CircBuf;
use crate::circbuf::MAX_ITEMS;
use crate::circbuf::lemma_mod_window;
use crate::entry::ClientVersion;
use crate::entry::ValidatorHistoryEntry;
use crate::entry::unset_entry;
use crate::errors::ValidatorHistoryError;
use crate::gossip::ContactInfo;
use crate::gossip::IpAddress;
use crate::gossip::LegacyContactInfo;
use crate::gossip::LegacyVersion;
use crate::gossip::Version2;

verus! {

/// Version tag of the serialized layout; a layout change requires a new tag.
pub enum ValidatorHistoryVersion {
    V0,
}

/// Program-wide configuration: the authorities allowed to publish data and a
/// counter of initialized history accounts.
pub struct Config {
    /// Program receiving MEV tips, distributed per epoch.
    pub tip_distribution_program: [u8; 32],
    /// Authority allowed to upgrade the tip distribution program.
    pub tip_distribution_authority: [u8; 32],
    /// Authority allowed to publish stake amounts per validator.
    pub stake_authority: [u8; 32],
    /// Number of initialized history accounts.
    pub counter: u32,
    pub bump: u8,
}

impl Default for Config {
    /// A zeroed configuration.
    fn default() -> (c: Self)
        ensures
            c.tip_distribution_program == vstd::array::spec_array_fill_for_copy_type::<u8, 32>(0u8),
            c.tip_distribution_authority == vstd::array::spec_array_fill_for_copy_type::<u8, 32>(0u8),
            c.stake_authority == vstd::array::spec_array_fill_for_copy_type::<u8, 32>(0u8),
            c.counter == 0,
            c.bump == 0,
    {
        Config {
            tip_distribution_program: [0u8; 32],
            tip_distribution_authority: [0u8; 32],
            stake_authority: [0u8; 32],
            counter: 0,
            bump: 0,
        }
    }
}

/// Mathematical state of a history store: the two watermarks and the buffer
/// state. The identity fields never change and stay outside the view.
#[verifier::ext_equal]
pub struct StoreState {
    pub last_ip_timestamp: u64,
    pub last_version_timestamp: u64,
    pub buf: BufState,
}

impl StoreState {
    pub open spec fn wf(self) -> bool {
        self.buf.wf()
    }
}

/// The aggregate: one circular buffer of history entries plus process-wide
/// monotonic timestamp guards for gossip-sourced updates.
pub struct ValidatorHistory {
    /// Tag of the serialized layout, `ValidatorHistoryVersion::V0`.
    pub struct_version: u32,
    /// Stable owner identity, assigned at creation.
    pub vote_account: [u8; 32],
    /// Sequence index among all history accounts, assigned at creation.
    pub index: u32,
    pub bump: u8,
    /// Keeps 8-byte alignment of the serialized layout.
    pub padding0: [u8; 7],
    /// Latest accepted timestamp of an IP-carrying gossip update.
    pub last_ip_timestamp: u64,
    /// Latest accepted timestamp of a version-carrying gossip update.
    pub last_version_timestamp: u64,
    /// Reserved space keeping the serialized layout stable.
    pub padding1: [u8; 232],
    pub history: CircBuf,
}

impl View for ValidatorHistory {
    type V = StoreState;

    open spec fn view(&self) -> StoreState {
        StoreState {
            last_ip_timestamp: self.last_ip_timestamp,
            last_version_timestamp: self.last_version_timestamp,
            buf: self.history@,
        }
    }
}

/// A fresh all-sentinel record whose epoch field is already set.
pub open spec fn epoch_started(epoch: u16) -> ValidatorHistoryEntry {
    ValidatorHistoryEntry { epoch, ..unset_entry() }
}

/// Update-in-place-or-append: if the most recently written record is for
/// `epoch`, rewrite it with `f`; otherwise push `f` applied to a fresh
/// record for `epoch`, evicting the oldest slot.
pub open spec fn upsert(
    b: BufState,
    epoch: u16,
    f: spec_fn(ValidatorHistoryEntry) -> ValidatorHistoryEntry,
) -> BufState {
    if b.last_is_epoch(epoch) {
        BufState { entries: b.entries.update(b.idx, f(b.entries[b.idx])), ..b }
    } else {
        b.push(f(epoch_started(epoch)))
    }
}

/// The record with its MEV commission replaced.
pub open spec fn with_mev_commission(e: ValidatorHistoryEntry, commission: u16) -> ValidatorHistoryEntry {
    ValidatorHistoryEntry { mev_commission: commission, ..e }
}

/// The record with its commission and last-update slot replaced.
pub open spec fn with_commission_and_slot(e: ValidatorHistoryEntry, commission: u8, slot: u64) -> ValidatorHistoryEntry {
    ValidatorHistoryEntry { commission, vote_account_last_update_slot: slot, ..e }
}

/// The record with its stake fields replaced.
pub open spec fn with_stake(
    e: ValidatorHistoryEntry,
    stake: u64,
    rank: u32,
    is_superminority: bool,
) -> ValidatorHistoryEntry {
    ValidatorHistoryEntry {
        activated_stake_lamports: stake,
        rank,
        is_superminority: if is_superminority { 1u8 } else { 0u8 },
        ..e
    }
}

/// The record with its client version replaced.
pub open spec fn with_version(e: ValidatorHistoryEntry, major: u8, minor: u8, patch: u16) -> ValidatorHistoryEntry {
    ValidatorHistoryEntry { version: ClientVersion { major, minor, patch }, ..e }
}

/// The record with its IP address replaced.
pub open spec fn with_ip(e: ValidatorHistoryEntry, ip: [u8; 4]) -> ValidatorHistoryEntry {
    ValidatorHistoryEntry { ip, ..e }
}

/// The record with its IP, client type and client version replaced.
pub open spec fn with_contact_info(
    e: ValidatorHistoryEntry,
    ip: [u8; 4],
    client_type: u8,
    major: u8,
    minor: u8,
    patch: u16,
) -> ValidatorHistoryEntry {
    ValidatorHistoryEntry {
        ip,
        client_type,
        version: ClientVersion { major, minor, patch },
        ..e
    }
}

/// The low byte of a gossip-supplied version component, as it is recorded.
pub open spec fn low_byte(x: u16) -> u8 {
    (x % 256) as u8
}

/// The field rewrite a MEV-commission update applies.
pub open spec fn mev_commission_updater(commission: u16) -> spec_fn(ValidatorHistoryEntry) -> ValidatorHistoryEntry {
    |e: ValidatorHistoryEntry| with_mev_commission(e, commission)
}

/// The field rewrite a commission-and-slot update applies.
pub open spec fn commission_and_slot_updater(commission: u8, slot: u64) -> spec_fn(ValidatorHistoryEntry) -> ValidatorHistoryEntry {
    |e: ValidatorHistoryEntry| with_commission_and_slot(e, commission, slot)
}

/// The field rewrite a stake update applies.
pub open spec fn stake_updater(stake: u64, rank: u32, is_superminority: bool) -> spec_fn(ValidatorHistoryEntry) -> ValidatorHistoryEntry {
    |e: ValidatorHistoryEntry| with_stake(e, stake, rank, is_superminority)
}

/// The field rewrite a version update applies.
pub open spec fn version_updater(major: u16, minor: u16, patch: u16) -> spec_fn(ValidatorHistoryEntry) -> ValidatorHistoryEntry {
    |e: ValidatorHistoryEntry| with_version(e, low_byte(major), low_byte(minor), patch)
}

/// The field rewrite a contact-info update applies.
pub open spec fn contact_info_updater(ci: ContactInfo) -> spec_fn(ValidatorHistoryEntry) -> ValidatorHistoryEntry {
    |e: ValidatorHistoryEntry| with_contact_info(
        e,
        ci.addrs@[0].v4_octets(),
        low_byte(ci.version.client),
        low_byte(ci.version.major),
        low_byte(ci.version.minor),
        ci.version.patch,
    )
}

/// The field rewrite a legacy contact-info update applies.
pub open spec fn ip_updater(addr: IpAddress) -> spec_fn(ValidatorHistoryEntry) -> ValidatorHistoryEntry {
    |e: ValidatorHistoryEntry| with_ip(e, addr.v4_octets())
}

/// Effect of a MEV-commission update: plain update-in-place-or-append; it
/// never fails.
pub open spec fn spec_set_mev_commission(s: StoreState, epoch: u16, commission: u16) -> StoreState {
    StoreState { buf: upsert(s.buf, epoch, mev_commission_updater(commission)), ..s }
}

/// Effect of a commission-and-slot update: plain update-in-place-or-append;
/// it never fails.
pub open spec fn spec_set_commission_and_slot(s: StoreState, epoch: u16, commission: u8, slot: u64) -> StoreState {
    StoreState { buf: upsert(s.buf, epoch, commission_and_slot_updater(commission, slot)), ..s }
}

/// Effect of a version update (current or legacy format): rejected as stale
/// if `ts` is older than the version watermark; on acceptance the version
/// watermark advances to `ts` and the version field is recorded, with the
/// major and minor components truncated to their low byte.
pub open spec fn spec_set_version(s: StoreState, epoch: u16, major: u16, minor: u16, patch: u16, ts: u64) -> (
    StoreState,
    Result<(), ValidatorHistoryError>,
) {
    if s.last_version_timestamp > ts {
        (s, Err(ValidatorHistoryError::StaleUpdate))
    } else {
        (
            StoreState {
                last_version_timestamp: ts,
                buf: upsert(s.buf, epoch, version_updater(major, minor, patch)),
                ..s
            },
            Ok(()),
        )
    }
}

/// Index of the first slot at or after `i` holding a record for `epoch`, or
/// the slot count when no such slot exists.
pub open spec fn find_epoch_from(entries: Seq<ValidatorHistoryEntry>, epoch: u16, i: int) -> int
    decreases entries.len() - i,
{
    if i < 0 || i >= entries.len() {
        entries.len() as int
    } else if entries[i].epoch == epoch {
        i
    } else {
        find_epoch_from(entries, epoch, i + 1)
    }
}

/// Effect of a stake update. If the most recently written record is for
/// `epoch`, the stake fields are rewritten in place. If the last record's
/// epoch is greater (an out-of-order correction), the first slot holding a
/// record for `epoch` is rewritten instead, and the update fails with
/// `EpochOutOfRange` when no slot does. Otherwise a fresh record for `epoch`
/// is appended.
pub open spec fn spec_set_stake(s: StoreState, epoch: u16, stake: u64, rank: u32, is_superminority: bool) -> (
    StoreState,
    Result<(), ValidatorHistoryError>,
) {
    let b = s.buf;
    if b.last_is_epoch(epoch) {
        (
            StoreState {
                buf: BufState {
                    entries: b.entries.update(b.idx, with_stake(b.entries[b.idx], stake, rank, is_superminority)),
                    ..b
                },
                ..s
            },
            Ok(()),
        )
    } else if !b.empty && b.entries[b.idx].epoch > epoch {
        let j = find_epoch_from(b.entries, epoch, 0);
        if j < b.entries.len() {
            (
                StoreState {
                    buf: BufState {
                        entries: b.entries.update(j, with_stake(b.entries[j], stake, rank, is_superminority)),
                        ..b
                    },
                    ..s
                },
                Ok(()),
            )
        } else {
            (s, Err(ValidatorHistoryError::EpochOutOfRange))
        }
    } else {
        (
            StoreState { buf: b.push(with_stake(epoch_started(epoch), stake, rank, is_superminority)), ..s },
            Ok(()),
        )
    }
}

/// Effect of a contact-info update: rejected if the address of record is not
/// IPv4, then rejected as stale if `ts` is older than either watermark; on
/// acceptance both watermarks advance to `ts` and the IP, client type and
/// client version are recorded together.
pub open spec fn spec_set_contact_info(s: StoreState, epoch: u16, ci: ContactInfo, ts: u64) -> (
    StoreState,
    Result<(), ValidatorHistoryError>,
) {
    if !(ci.addrs@[0] is V4) {
        (s, Err(ValidatorHistoryError::UnsupportedAddressFormat))
    } else if s.last_ip_timestamp > ts || s.last_version_timestamp > ts {
        (s, Err(ValidatorHistoryError::StaleUpdate))
    } else {
        (
            StoreState {
                last_ip_timestamp: ts,
                last_version_timestamp: ts,
                buf: upsert(s.buf, epoch, contact_info_updater(ci)),
            },
            Ok(()),
        )
    }
}

/// Effect of a legacy contact-info update: rejected if the gossip address is
/// not IPv4, then rejected as stale against the IP watermark only; on
/// acceptance only the IP watermark advances and only the IP is recorded.
pub open spec fn spec_set_legacy_contact_info(s: StoreState, epoch: u16, addr: IpAddress, ts: u64) -> (
    StoreState,
    Result<(), ValidatorHistoryError>,
) {
    if !(addr is V4) {
        (s, Err(ValidatorHistoryError::UnsupportedAddressFormat))
    } else if s.last_ip_timestamp > ts {
        (s, Err(ValidatorHistoryError::StaleUpdate))
    } else {
        (
            StoreState {
                last_ip_timestamp: ts,
                buf: upsert(s.buf, epoch, ip_updater(addr)),
                ..s
            },
            Ok(()),
        )
    }
}

/// How an externally supplied 64-bit epoch number is reduced to the 16-bit
/// epoch index of a record; the result never equals the epoch sentinel.
pub open spec fn spec_cast_epoch(epoch: u64) -> u16 {
    (epoch % 0xFFFF) as u16
}

/// The per-epoch credit delta implied by one batch triple: cumulative
/// credits now minus cumulative credits of the previous epoch, truncated to
/// 32 bits as it is recorded.
pub open spec fn credits_delta(t: (u64, u64, u64)) -> u32 {
    (((t.1 - t.2) % 0x1_0000_0000) as u32)
}

/// Every triple's cumulative credits are at least the previous epoch's;
/// otherwise the batch is corrupt.
pub open spec fn batch_wf(batch: Seq<(u64, u64, u64)>) -> bool {
    forall|i: int| 0 <= i < batch.len() ==> (#[trigger] batch[i]).1 >= batch[i].2
}

/// The delta the batch supplies for `epoch`, if any. When several triples
/// reduce to the same epoch index, the last one wins.
pub open spec fn batch_lookup(batch: Seq<(u64, u64, u64)>, epoch: u16) -> Option<u32>
    decreases batch.len(),
{
    if batch.len() == 0 {
        None
    } else if spec_cast_epoch(batch.last().0) == epoch {
        Some(credits_delta(batch.last()))
    } else {
        batch_lookup(batch.drop_last(), epoch)
    }
}

/// The slot visited at step `i` of the backward walk that starts at the
/// cursor and wraps at zero.
pub open spec fn walk_pos(idx: int, i: int) -> int {
    (idx + MAX_ITEMS - i) % (MAX_ITEMS as int)
}

/// Whether the backward walk keeps going after visiting slot `p`: the batch
/// supplies a delta for that slot's epoch and the delta differs from what is
/// stored. A matching delta or an absent epoch stops the walk at once.
pub open spec fn credits_continue(entries: Seq<ValidatorHistoryEntry>, batch: Seq<(u64, u64, u64)>, p: int) -> bool {
    match batch_lookup(batch, entries[p].epoch) {
        Some(d) => d != entries[p].epoch_credits,
        None => false,
    }
}

/// Number of steps the backward walk takes in total, given that steps before
/// `i` all continued: the first step at or after `i` whose slot stops the
/// walk, or the slot count if every slot is overwritten.
pub open spec fn walk_len_from(entries: Seq<ValidatorHistoryEntry>, batch: Seq<(u64, u64, u64)>, idx: int, i: int) -> int
    decreases MAX_ITEMS - i,
{
    if i < 0 || i >= MAX_ITEMS {
        MAX_ITEMS as int
    } else if credits_continue(entries, batch, walk_pos(idx, i)) {
        walk_len_from(entries, batch, idx, i + 1)
    } else {
        i
    }
}

/// The record with its epoch credits replaced.
pub open spec fn with_epoch_credits(e: ValidatorHistoryEntry, credits: u32) -> ValidatorHistoryEntry {
    ValidatorHistoryEntry { epoch_credits: credits, ..e }
}

/// The slot array after the first `k` steps of the backward walk have
/// overwritten their slots' epoch credits with the batch-supplied deltas.
pub open spec fn backfill_upto(entries: Seq<ValidatorHistoryEntry>, batch: Seq<(u64, u64, u64)>, idx: int, k: int) -> Seq<ValidatorHistoryEntry> {
    Seq::new(
        entries.len(),
        |j: int| if walk_pos(idx, j) < k {
            with_epoch_credits(entries[j], batch_lookup(batch, entries[j].epoch)->0)
        } else {
            entries[j]
        },
    )
}

/// Effect of an epoch-credits backfill. An empty batch is a no-op success; a
/// batch implying a negative delta fails with `InvalidEpochCredits` without
/// mutating anything. Otherwise the walk starts at the cursor, moves
/// backward through the slots, overwrites every visited slot whose stored
/// credits differ from the batch's delta, and stops at the first slot whose
/// epoch is absent from the batch or whose credits already match.
pub open spec fn spec_set_epoch_credits(s: StoreState, batch: Seq<(u64, u64, u64)>) -> (
    StoreState,
    Result<(), ValidatorHistoryError>,
) {
    if batch.len() == 0 {
        (s, Ok(()))
    } else if !batch_wf(batch) {
        (s, Err(ValidatorHistoryError::InvalidEpochCredits))
    } else {
        let k = walk_len_from(s.buf.entries, batch, s.buf.idx, 0);
        (
            StoreState {
                buf: BufState { entries: backfill_upto(s.buf.entries, batch, s.buf.idx, k), ..s.buf },
                ..s
            },
            Ok(()),
        )
    }
}

/// Reduces an externally supplied 64-bit epoch number to the 16-bit epoch
/// index under which a record is stored.
pub fn cast_epoch(epoch: u64) -> (r: u16)
    ensures
        r == spec_cast_epoch(epoch),
        r < u16::MAX,
{
    (epoch % 0xFFFF) as u16
}

/// Visiting is its own inverse: the step at which a slot is visited is the
/// slot visited at that step. In particular distinct steps visit distinct
/// slots.
proof fn lemma_walk_pos_involution(idx: int, i: int)
    requires
        0 <= idx < MAX_ITEMS,
        0 <= i < MAX_ITEMS,
    ensures
        0 <= walk_pos(idx, i) < MAX_ITEMS,
        walk_pos(idx, walk_pos(idx, i)) == i,
{
    lemma_mod_window(idx + (MAX_ITEMS as int) - i);
    let p = walk_pos(idx, i);
    lemma_mod_window(idx + (MAX_ITEMS as int) - p);
}

/// The walk takes between `i` steps and the whole window.
proof fn lemma_walk_len_bounds(entries: Seq<ValidatorHistoryEntry>, batch: Seq<(u64, u64, u64)>, idx: int, i: int)
    requires
        0 <= i <= MAX_ITEMS,
    ensures
        i <= walk_len_from(entries, batch, idx, i) <= MAX_ITEMS,
    decreases MAX_ITEMS - i,
{
    if i < MAX_ITEMS && credits_continue(entries, batch, walk_pos(idx, i)) {
        lemma_walk_len_bounds(entries, batch, idx, i + 1);
    }
}

/// A walk whose first `i` steps all continued ends where the walk counted
/// from step `i` ends.
proof fn lemma_walk_len_prefix(entries: Seq<ValidatorHistoryEntry>, batch: Seq<(u64, u64, u64)>, idx: int, i: int)
    requires
        0 <= i <= MAX_ITEMS,
        forall|t: int| 0 <= t < i ==> credits_continue(entries, batch, walk_pos(idx, t)),
    ensures
        walk_len_from(entries, batch, idx, 0) == walk_len_from(entries, batch, idx, i),
    decreases i,
{
    if i > 0 {
        lemma_walk_len_prefix(entries, batch, idx, i - 1);
        assert(credits_continue(entries, batch, walk_pos(idx, i - 1)));
        assert(walk_len_from(entries, batch, idx, i - 1) == walk_len_from(entries, batch, idx, i));
    }
}

/// Before any step has run, the backfill leaves every slot as it was.
proof fn lemma_backfill_zero(entries: Seq<ValidatorHistoryEntry>, batch: Seq<(u64, u64, u64)>, idx: int)
    requires
        entries.len() == MAX_ITEMS,
        0 <= idx < MAX_ITEMS,
    ensures
        backfill_upto(entries, batch, idx, 0) =~= entries,
{
    assert forall|j: int| 0 <= j < MAX_ITEMS implies backfill_upto(entries, batch, idx, 0)[j] == entries[j] by {
        lemma_walk_pos_involution(idx, j);
    }
}

/// One more step of the walk overwrites exactly the slot it visits.
proof fn lemma_backfill_step(entries: Seq<ValidatorHistoryEntry>, batch: Seq<(u64, u64, u64)>, idx: int, i: int)
    requires
        entries.len() == MAX_ITEMS,
        0 <= idx < MAX_ITEMS,
        0 <= i < MAX_ITEMS,
    ensures
        backfill_upto(entries, batch, idx, i + 1) =~= backfill_upto(entries, batch, idx, i).update(
            walk_pos(idx, i),
            with_epoch_credits(entries[walk_pos(idx, i)], batch_lookup(batch, entries[walk_pos(idx, i)].epoch)->0),
        ),
{
    lemma_walk_pos_involution(idx, i);
    let p = walk_pos(idx, i);
    let lhs = backfill_upto(entries, batch, idx, i + 1);
    let rhs = backfill_upto(entries, batch, idx, i).update(
        p,
        with_epoch_credits(entries[p], batch_lookup(batch, entries[p].epoch)->0),
    );
    assert forall|j: int| 0 <= j < MAX_ITEMS implies lhs[j] == rhs[j] by {
        lemma_walk_pos_involution(idx, j);
        if j != p {
            assert(walk_pos(idx, j) != i);
        }
    }
}

/// When several triples reduce to an epoch other than the one looked up,
/// dropping the latest of them does not change the lookup.
proof fn lemma_batch_lookup_take(batch: Seq<(u64, u64, u64)>, epoch: u16, i: int)
    requires
        0 <= i < batch.len(),
        spec_cast_epoch(batch[i].0) != epoch,
    ensures
        batch_lookup(batch.take(i + 1), epoch) == batch_lookup(batch.take(i), epoch),
{
    assert(batch.take(i + 1).drop_last() =~= batch.take(i));
    assert(batch.take(i + 1).last() == batch[i]);
}

/// The delta the batch supplies for `epoch`: a backward scan, so that the
/// latest triple for an epoch wins, as it would in a map built front to
/// back.
fn lookup_delta(batch: &[(u64, u64, u64)], epoch: u16) -> (r: Option<u32>)
    requires
        batch_wf(batch@),
    ensures
        r == batch_lookup(batch@, epoch),
{
    proof {
        assert(batch@.take(batch@.len() as int) =~= batch@);
    }
    let mut i: usize = batch.len();
    while i > 0
        invariant
            i <= batch@.len(),
            batch_wf(batch@),
            batch_lookup(batch@, epoch) == batch_lookup(batch@.take(i as int), epoch),
        decreases i,
    {
        i = i - 1;
        let t = batch[i];
        if cast_epoch(t.0) == epoch {
            let d = t.1 - t.2;
            proof {
                assert(batch@.take(i as int + 1).last() == batch@[i as int]);
                assert(batch@.take(i as int + 1).len() > 0);
            }
            return Some((d % 0x1_0000_0000u64) as u32);
        }
        proof {
            lemma_batch_lookup_take(batch@, epoch, i as int);
        }
    }
    proof {
        assert(batch@.take(0).len() == 0);
    }
    None
}

/// A scan that found no record for `epoch` among the first `k` slots pins
/// down where the search from slot zero ends up.
proof fn lemma_find_epoch_prefix(entries: Seq<ValidatorHistoryEntry>, epoch: u16, k: int)
    requires
        0 <= k <= entries.len(),
        forall|t: int| 0 <= t < k ==> entries[t].epoch != epoch,
    ensures
        find_epoch_from(entries, epoch, 0) == find_epoch_from(entries, epoch, k),
    decreases k,
{
    if k > 0 {
        lemma_find_epoch_prefix(entries, epoch, k - 1);
        assert(find_epoch_from(entries, epoch, k - 1) == find_epoch_from(entries, epoch, k));
    }
}

impl ValidatorHistory {
    /// Number of records the store retains.
    pub const MAX_ITEMS: usize = 512;

    /// The contained buffer is well formed.
    pub open spec fn wf(self) -> bool {
        self@.wf()
    }

    /// The creation-time identity fields agree with `o`'s; update operations
    /// never touch them.
    pub open spec fn identity_eq(self, o: ValidatorHistory) -> bool {
        &&& self.struct_version == o.struct_version
        &&& self.vote_account == o.vote_account
        &&& self.index == o.index
        &&& self.bump == o.bump
        &&& self.padding0 == o.padding0
        &&& self.padding1 == o.padding1
        &&& self.history.padding == o.history.padding
    }

    /// A freshly created store: all-sentinel records, empty buffer, zero
    /// watermarks, identity as supplied by the external allocator.
    pub fn new(vote_account: [u8; 32], index: u32, bump: u8) -> (h: Self)
        ensures
            h.wf(),
            h.struct_version == 0,
            h.vote_account == vote_account,
            h.index == index,
            h.bump == bump,
            h@.last_ip_timestamp == 0,
            h@.last_version_timestamp == 0,
            h@.buf.empty,
            h@.buf.idx == 0,
            forall|j: int| 0 <= j < MAX_ITEMS ==> h@.buf.entries[j] == unset_entry(),
    {
        ValidatorHistory {
            struct_version: 0,
            vote_account,
            index,
            bump,
            padding0: [0u8; 7],
            last_ip_timestamp: 0,
            last_version_timestamp: 0,
            padding1: [0u8; 232],
            history: CircBuf::default(),
        }
    }

    /// Records a MEV commission for `epoch` by update-in-place-or-append.
    /// Never fails.
    pub fn set_mev_commission(&mut self, epoch: u16, commission: u16) -> (r: Result<(), ValidatorHistoryError>)
        requires
            old(self).wf(),
        ensures
            final(self).wf(),
            final(self).identity_eq(*old(self)),
            final(self)@ == spec_set_mev_commission(old(self)@, epoch, commission),
            r is Ok,
    {
        if let Some(entry) = self.history.last_mut() {
            if entry.epoch == epoch {
                entry.mev_commission = commission;
                return Ok(());
            }
        }
        let entry = ValidatorHistoryEntry {
            epoch,
            mev_commission: commission,
            ..ValidatorHistoryEntry::default()
        };
        proof {
            assert(self@ =~= old(self)@);
        }
        self.history.push(entry);
        Ok(())
    }

    /// Records stake amount, rank and superminority membership for `epoch`.
    /// If the last record's epoch is greater than the target (a backfilled
    /// correction), the whole buffer is scanned for the target epoch instead,
    /// and the update fails with `EpochOutOfRange` when that epoch has
    /// scrolled out of the retained window.
    pub fn set_stake(&mut self, epoch: u16, stake: u64, rank: u32, is_superminority: bool) -> (r: Result<(), ValidatorHistoryError>)
        requires
            old(self).wf(),
        ensures
            final(self).wf(),
            final(self).identity_eq(*old(self)),
            ({
                let (s, res) = spec_set_stake(old(self)@, epoch, stake, rank, is_superminority);
                final(self)@ == s && r == res
            }),
    {
        if !self.history.is_empty() {
            let i = self.history.idx as usize;
            let last_epoch = self.history.arr[i].epoch;
            if last_epoch == epoch {
                let e = self.history.arr[i];
                self.history.arr[i] = ValidatorHistoryEntry {
                    activated_stake_lamports: stake,
                    rank,
                    is_superminority: if is_superminority { 1 } else { 0 },
                    ..e
                };
                return Ok(());
            }
            if last_epoch > epoch {
                let mut k: usize = 0;
                while k < MAX_ITEMS
                    invariant
                        old(self).wf(),
                        *self == *old(self),
                        !old(self)@.buf.empty,
                        old(self)@.buf.entries[old(self)@.buf.idx].epoch > epoch,
                        k <= MAX_ITEMS,
                        forall|t: int| 0 <= t < k ==> self.history.arr@[t].epoch != epoch,
                    decreases MAX_ITEMS - k,
                {
                    if self.history.arr[k].epoch == epoch {
                        let e = self.history.arr[k];
                        proof {
                            lemma_find_epoch_prefix(self.history.arr@, epoch, k as int);
                        }
                        self.history.arr[k] = ValidatorHistoryEntry {
                            activated_stake_lamports: stake,
                            rank,
                            is_superminority: if is_superminority { 1 } else { 0 },
                            ..e
                        };
                        proof {
                            let b = old(self)@.buf;
                            let j = find_epoch_from(b.entries, epoch, 0);
                            assert(j == k);
                            assert(self@.buf =~= (BufState {
                                entries: b.entries.update(j, with_stake(b.entries[j], stake, rank, is_superminority)),
                                ..b
                            }));
                            assert(self@ =~= spec_set_stake(old(self)@, epoch, stake, rank, is_superminority).0);
                        }
                        return Ok(());
                    }
                    k = k + 1;
                }
                proof {
                    lemma_find_epoch_prefix(self.history.arr@, epoch, MAX_ITEMS as int);
                }
                return Err(ValidatorHistoryError::EpochOutOfRange);
            }
        }
        let entry = ValidatorHistoryEntry {
            epoch,
            activated_stake_lamports: stake,
            rank,
            is_superminority: if is_superminority { 1 } else { 0 },
            ..ValidatorHistoryEntry::default()
        };
        proof {
            assert(self@ =~= old(self)@);
        }
        self.history.push(entry);
        Ok(())
    }

    /// Reconciles a batch of `(epoch, cumulative credits, previous
    /// cumulative credits)` triples against the recorded entries. Walks
    /// backward from the most recent entry, overwriting stored epoch credits
    /// that differ from the batch's delta, and stops at the first entry
    /// whose epoch the batch does not cover or whose credits already match;
    /// older entries are assumed correct or unreachable. An empty batch is a
    /// no-op; a negative delta fails with `InvalidEpochCredits` before
    /// anything is written.
    pub fn set_epoch_credits(&mut self, epoch_credits: &[(u64, u64, u64)]) -> (r: Result<(), ValidatorHistoryError>)
        requires
            old(self).wf(),
        ensures
            final(self).wf(),
            final(self).identity_eq(*old(self)),
            ({
                let (s, res) = spec_set_epoch_credits(old(self)@, epoch_credits@);
                final(self)@ == s && r == res
            }),
    {
        if epoch_credits.len() == 0 {
            return Ok(());
        }

        let n = epoch_credits.len();
        let mut v: usize = 0;
        while v < n
            invariant
                old(self).wf(),
                n == epoch_credits@.len(),
                n > 0,
                v <= n,
                *self == *old(self),
                forall|t: int| 0 <= t < v ==> (#[trigger] epoch_credits@[t]).1 >= epoch_credits@[t].2,
            decreases n - v,
        {
            let t = epoch_credits[v];
            if t.1 < t.2 {
                return Err(ValidatorHistoryError::InvalidEpochCredits);
            }
            v = v + 1;
        }

        let ghost e0 = self.history.arr@;
        let ghost idx0 = self@.buf.idx;
        proof {
            lemma_backfill_zero(e0, epoch_credits@, idx0);
        }
        let mut i: usize = 0;
        loop
            invariant_except_break
                i <= MAX_ITEMS,
                old(self).wf(),
                epoch_credits@.len() > 0,
                batch_wf(epoch_credits@),
                e0 == old(self)@.buf.entries,
                idx0 == old(self)@.buf.idx,
                self.history.idx == old(self).history.idx,
                self.history.is_empty == old(self).history.is_empty,
                self.history.arr@.len() == MAX_ITEMS,
                self.history.arr@ == backfill_upto(e0, epoch_credits@, idx0, i as int),
                forall|t: int| 0 <= t < i ==> credits_continue(e0, epoch_credits@, walk_pos(idx0, t)),
                self.identity_eq(*old(self)),
                self.last_ip_timestamp == old(self).last_ip_timestamp,
                self.last_version_timestamp == old(self).last_version_timestamp,
            ensures
                old(self).wf(),
                epoch_credits@.len() > 0,
                batch_wf(epoch_credits@),
                self.history.idx == old(self).history.idx,
                self.history.is_empty == old(self).history.is_empty,
                self.history.arr@ == backfill_upto(
                    old(self)@.buf.entries,
                    epoch_credits@,
                    old(self)@.buf.idx,
                    walk_len_from(old(self)@.buf.entries, epoch_credits@, old(self)@.buf.idx, 0),
                ),
                self.identity_eq(*old(self)),
                self.last_ip_timestamp == old(self).last_ip_timestamp,
                self.last_version_timestamp == old(self).last_version_timestamp,
            decreases MAX_ITEMS - i,
        {
            if i >= MAX_ITEMS {
                proof {
                    lemma_walk_len_prefix(e0, epoch_credits@, idx0, MAX_ITEMS as int);
                    assert(walk_len_from(e0, epoch_credits@, idx0, MAX_ITEMS as int) == MAX_ITEMS as int);
                }
                break;
            }
            let idx_cur = self.history.idx as usize;
            let p = (idx_cur + MAX_ITEMS - i) % MAX_ITEMS;
            proof {
                lemma_walk_pos_involution(idx0, i as int);
                assert(p as int == walk_pos(idx0, i as int));
                assert(self.history.arr@[p as int] == e0[p as int]);
            }
            let e = self.history.arr[p];
            let od = lookup_delta(epoch_credits, e.epoch);
            let cont = match od {
                Some(d) => d != e.epoch_credits,
                None => false,
            };
            if cont {
                let d = od.unwrap();
                self.history.arr[p] = ValidatorHistoryEntry { epoch_credits: d, ..e };
                proof {
                    assert(credits_continue(e0, epoch_credits@, walk_pos(idx0, i as int)));
                    lemma_backfill_step(e0, epoch_credits@, idx0, i as int);
                    assert(self.history.arr@ =~= backfill_upto(e0, epoch_credits@, idx0, i as int + 1));
                }
                i = i + 1;
            } else {
                proof {
                    assert(!credits_continue(e0, epoch_credits@, walk_pos(idx0, i as int)));
                    lemma_walk_len_prefix(e0, epoch_credits@, idx0, i as int);
                    assert(walk_len_from(e0, epoch_credits@, idx0, i as int) == i as int);
                }
                break;
            }
        }
        proof {
            assert(self@ =~= spec_set_epoch_credits(old(self)@, epoch_credits@).0);
        }
        Ok(())
    }

    /// Records a commission and its observation slot for `epoch` by
    /// update-in-place-or-append. Never fails.
    pub fn set_commission_and_slot(&mut self, epoch: u16, commission: u8, slot: u64) -> (r: Result<(), ValidatorHistoryError>)
        requires
            old(self).wf(),
        ensures
            final(self).wf(),
            final(self).identity_eq(*old(self)),
            final(self)@ == spec_set_commission_and_slot(old(self)@, epoch, commission, slot),
            r is Ok,
    {
        if let Some(entry) = self.history.last_mut() {
            if entry.epoch == epoch {
                entry.commission = commission;
                entry.vote_account_last_update_slot = slot;
                return Ok(());
            }
        }
        let entry = ValidatorHistoryEntry {
            epoch,
            commission,
            vote_account_last_update_slot: slot,
            ..ValidatorHistoryEntry::default()
        };
        proof {
            assert(self@ =~= old(self)@);
        }
        self.history.push(entry);
        Ok(())
    }

    /// Records the client version for `epoch` from a current-format version
    /// message, guarded by the version watermark.
    pub fn set_version(&mut self, epoch: u16, version: &Version2, version_ts: u64) -> (r: Result<(), ValidatorHistoryError>)
        requires
            old(self).wf(),
        ensures
            final(self).wf(),
            final(self).identity_eq(*old(self)),
            ({
                let (s, res) = spec_set_version(
                    old(self)@,
                    epoch,
                    version.version.major,
                    version.version.minor,
                    version.version.patch,
                    version_ts,
                );
                final(self)@ == s && r == res
            }),
    {
        self.apply_version(epoch, version.version.major, version.version.minor, version.version.patch, version_ts)
    }

    /// Records the client version for `epoch` from a legacy version message,
    /// guarded by the version watermark.
    pub fn set_legacy_version(&mut self, epoch: u16, legacy_version: &LegacyVersion, version_ts: u64) -> (r: Result<(), ValidatorHistoryError>)
        requires
            old(self).wf(),
        ensures
            final(self).wf(),
            final(self).identity_eq(*old(self)),
            ({
                let (s, res) = spec_set_version(
                    old(self)@,
                    epoch,
                    legacy_version.version.major,
                    legacy_version.version.minor,
                    legacy_version.version.patch,
                    version_ts,
                );
                final(self)@ == s && r == res
            }),
    {
        self.apply_version(epoch, legacy_version.version.major, legacy_version.version.minor, legacy_version.version.patch, version_ts)
    }

    /// Shared body of the two version setters.
    fn apply_version(&mut self, epoch: u16, major: u16, minor: u16, patch: u16, version_ts: u64) -> (r: Result<(), ValidatorHistoryError>)
        requires
            old(self).wf(),
        ensures
            final(self).wf(),
            final(self).identity_eq(*old(self)),
            ({
                let (s, res) = spec_set_version(old(self)@, epoch, major, minor, patch, version_ts);
                final(self)@ == s && r == res
            }),
    {
        if self.last_version_timestamp > version_ts {
            return Err(ValidatorHistoryError::StaleUpdate);
        }
        self.last_version_timestamp = version_ts;

        let major8: u8 = (major % 256) as u8;
        let minor8: u8 = (minor % 256) as u8;
        if let Some(entry) = self.history.last_mut() {
            if entry.epoch == epoch {
                entry.version.major = major8;
                entry.version.minor = minor8;
                entry.version.patch = patch;
                return Ok(());
            }
        }
        let entry = ValidatorHistoryEntry {
            epoch,
            version: ClientVersion { major: major8, minor: minor8, patch },
            ..ValidatorHistoryEntry::default()
        };
        proof {
            assert(self.history@ =~= old(self).history@);
        }
        self.history.push(entry);
        Ok(())
    }

    /// Records IP, client type and client version for `epoch` from a
    /// current-format contact-info message. The address of record must be
    /// IPv4 and the timestamp must not be older than either watermark; on
    /// acceptance both watermarks advance to it.
    pub fn set_contact_info(&mut self, epoch: u16, contact_info: &ContactInfo, contact_info_ts: u64) -> (r: Result<(), ValidatorHistoryError>)
        requires
            old(self).wf(),
            contact_info.addrs@.len() > 0,
        ensures
            final(self).wf(),
            final(self).identity_eq(*old(self)),
            ({
                let (s, res) = spec_set_contact_info(old(self)@, epoch, *contact_info, contact_info_ts);
                final(self)@ == s && r == res
            }),
    {
        let ip: [u8; 4] = match contact_info.addrs[0] {
            IpAddress::V4(octets) => octets,
            IpAddress::V6(_) => {
                return Err(ValidatorHistoryError::UnsupportedAddressFormat);
            },
        };

        if self.last_ip_timestamp > contact_info_ts || self.last_version_timestamp > contact_info_ts {
            return Err(ValidatorHistoryError::StaleUpdate);
        }
        self.last_ip_timestamp = contact_info_ts;
        self.last_version_timestamp = contact_info_ts;

        let client8: u8 = (contact_info.version.client % 256) as u8;
        let major8: u8 = (contact_info.version.major % 256) as u8;
        let minor8: u8 = (contact_info.version.minor % 256) as u8;
        let patch: u16 = contact_info.version.patch;
        if let Some(entry) = self.history.last_mut() {
            if entry.epoch == epoch {
                entry.ip = ip;
                entry.client_type = client8;
                entry.version.major = major8;
                entry.version.minor = minor8;
                entry.version.patch = patch;
                return Ok(());
            }
        }
        let entry = ValidatorHistoryEntry {
            epoch,
            ip,
            client_type: client8,
            version: ClientVersion { major: major8, minor: minor8, patch },
            ..ValidatorHistoryEntry::default()
        };
        proof {
            assert(self.history@ =~= old(self).history@);
        }
        self.history.push(entry);
        Ok(())
    }

    /// Records only the IP for `epoch` from a legacy contact-info message.
    /// The gossip address must be IPv4 and the timestamp must not be older
    /// than the IP watermark; on acceptance only that watermark advances.
    pub fn set_legacy_contact_info(&mut self, epoch: u16, legacy_contact_info: &LegacyContactInfo, contact_info_ts: u64) -> (r: Result<(), ValidatorHistoryError>)
        requires
            old(self).wf(),
        ensures
            final(self).wf(),
            final(self).identity_eq(*old(self)),
            ({
                let (s, res) = spec_set_legacy_contact_info(
                    old(self)@,
                    epoch,
                    legacy_contact_info.gossip.ip,
                    contact_info_ts,
                );
                final(self)@ == s && r == res
            }),
    {
        let ip: [u8; 4] = match legacy_contact_info.gossip.ip() {
            IpAddress::V4(octets) => octets,
            IpAddress::V6(_) => {
                return Err(ValidatorHistoryError::UnsupportedAddressFormat);
            },
        };
        if self.last_ip_timestamp > contact_info_ts {
            return Err(ValidatorHistoryError::StaleUpdate);
        }
        self.last_ip_timestamp = contact_info_ts;

        if let Some(entry) = self.history.last_mut() {
            if entry.epoch == epoch {
                entry.ip = ip;
                return Ok(());
            }
        }
        let entry = ValidatorHistoryEntry {
            epoch,
            ip,
            ..ValidatorHistoryEntry::default()
        };
        proof {
            assert(self.history@ =~= old(self).history@);
        }
        self.history.push(entry);
        Ok(())
    }
}

/// Where a scan from `i` stops: at or after `i`, at a slot holding `epoch`
/// if it stops inside the array, with no earlier slot holding `epoch`.
proof fn lemma_find_epoch_found(entries: Seq<ValidatorHistoryEntry>, epoch: u16, i: int)
    requires
        0 <= i <= entries.len(),
    ensures
        ({
            let j = find_epoch_from(entries, epoch, i);
            &&& i <= j <= entries.len()
            &&& (j < entries.len() ==> entries[j].epoch == epoch)
            &&& forall|t: int| i <= t < j ==> entries[t].epoch != epoch
        }),
    decreases entries.len() - i,
{
    if i < entries.len() && entries[i].epoch != epoch {
        lemma_find_epoch_found(entries, epoch, i + 1);
    }
}

/// The scan reads nothing but the slots' epochs.
proof fn lemma_find_epoch_congruent(e1: Seq<ValidatorHistoryEntry>, e2: Seq<ValidatorHistoryEntry>, epoch: u16, i: int)
    requires
        e1.len() == e2.len(),
        forall|t: int| 0 <= t < e1.len() ==> e1[t].epoch == e2[t].epoch,
    ensures
        find_epoch_from(e1, epoch, i) == find_epoch_from(e2, epoch, i),
    decreases e1.len() - i,
{
    if 0 <= i && i < e1.len() {
        lemma_find_epoch_congruent(e1, e2, epoch, i + 1);
    }
}

/// Update-in-place idempotence of the shared pattern: applying the same
/// field rewrite at the same epoch twice leaves the buffer exactly as after
/// the first application, provided the rewrite keeps the record's epoch and
/// is itself idempotent.
pub proof fn lemma_upsert_idempotent(
    b: BufState,
    epoch: u16,
    f: spec_fn(ValidatorHistoryEntry) -> ValidatorHistoryEntry,
)
    requires
        b.wf(),
        forall|e: ValidatorHistoryEntry| (#[trigger] f(e)).epoch == e.epoch,
        forall|e: ValidatorHistoryEntry| #[trigger] f(f(e)) == f(e),
    ensures
        upsert(upsert(b, epoch, f), epoch, f) == upsert(b, epoch, f),
{
    let b1 = upsert(b, epoch, f);
    lemma_mod_window(b.idx + 1);
    if b.last_is_epoch(epoch) {
        assert(b1.entries[b1.idx] == f(b.entries[b.idx]));
    } else {
        assert(b1.entries[b1.idx] == f(epoch_started(epoch)));
    }
    assert(b1.last_is_epoch(epoch));
    assert(upsert(b1, epoch, f).entries =~= b1.entries);
    assert(upsert(b1, epoch, f) =~= b1);
}

/// Update-in-place idempotence of the MEV-commission update: recording the
/// same commission for the same epoch twice leaves the state as after the
/// first call.
pub proof fn lemma_set_mev_commission_idempotent(s: StoreState, epoch: u16, commission: u16)
    requires
        s.wf(),
    ensures
        spec_set_mev_commission(spec_set_mev_commission(s, epoch, commission), epoch, commission)
            == spec_set_mev_commission(s, epoch, commission),
{
    let f = mev_commission_updater(commission);
    lemma_upsert_idempotent(s.buf, epoch, f);
    assert(spec_set_mev_commission(spec_set_mev_commission(s, epoch, commission), epoch, commission)
        =~= spec_set_mev_commission(s, epoch, commission));
}

/// Update-in-place idempotence of the commission-and-slot update.
pub proof fn lemma_set_commission_and_slot_idempotent(s: StoreState, epoch: u16, commission: u8, slot: u64)
    requires
        s.wf(),
    ensures
        spec_set_commission_and_slot(spec_set_commission_and_slot(s, epoch, commission, slot), epoch, commission, slot)
            == spec_set_commission_and_slot(s, epoch, commission, slot),
{
    let f = commission_and_slot_updater(commission, slot);
    lemma_upsert_idempotent(s.buf, epoch, f);
    assert(spec_set_commission_and_slot(spec_set_commission_and_slot(s, epoch, commission, slot), epoch, commission, slot)
        =~= spec_set_commission_and_slot(s, epoch, commission, slot));
}

/// Update-in-place idempotence of the version update: the second identical
/// call passes the watermark (the timestamp is equal, not older) and
/// rewrites the same record to the same value.
pub proof fn lemma_set_version_idempotent(s: StoreState, epoch: u16, major: u16, minor: u16, patch: u16, ts: u64)
    requires
        s.wf(),
    ensures
        ({
            let (s1, r1) = spec_set_version(s, epoch, major, minor, patch, ts);
            let (s2, r2) = spec_set_version(s1, epoch, major, minor, patch, ts);
            s2 == s1 && r2 == r1
        }),
{
    if !(s.last_version_timestamp > ts) {
        let f = version_updater(major, minor, patch);
        lemma_upsert_idempotent(s.buf, epoch, f);
        let (s1, r1) = spec_set_version(s, epoch, major, minor, patch, ts);
        let (s2, r2) = spec_set_version(s1, epoch, major, minor, patch, ts);
        assert(s2 =~= s1);
    }
}

/// Update-in-place idempotence of the contact-info update.
pub proof fn lemma_set_contact_info_idempotent(s: StoreState, epoch: u16, ci: ContactInfo, ts: u64)
    requires
        s.wf(),
    ensures
        ({
            let (s1, r1) = spec_set_contact_info(s, epoch, ci, ts);
            let (s2, r2) = spec_set_contact_info(s1, epoch, ci, ts);
            s2 == s1 && r2 == r1
        }),
{
    if ci.addrs@[0] is V4 && !(s.last_ip_timestamp > ts || s.last_version_timestamp > ts) {
        let f = contact_info_updater(ci);
        lemma_upsert_idempotent(s.buf, epoch, f);
        let (s1, r1) = spec_set_contact_info(s, epoch, ci, ts);
        let (s2, r2) = spec_set_contact_info(s1, epoch, ci, ts);
        assert(s2 =~= s1);
    }
}

/// Update-in-place idempotence of the legacy contact-info update.
pub proof fn lemma_set_legacy_contact_info_idempotent(s: StoreState, epoch: u16, addr: IpAddress, ts: u64)
    requires
        s.wf(),
    ensures
        ({
            let (s1, r1) = spec_set_legacy_contact_info(s, epoch, addr, ts);
            let (s2, r2) = spec_set_legacy_contact_info(s1, epoch, addr, ts);
            s2 == s1 && r2 == r1
        }),
{
    if addr is V4 && !(s.last_ip_timestamp > ts) {
        let f = ip_updater(addr);
        lemma_upsert_idempotent(s.buf, epoch, f);
        let (s1, r1) = spec_set_legacy_contact_info(s, epoch, addr, ts);
        let (s2, r2) = spec_set_legacy_contact_info(s1, epoch, addr, ts);
        assert(s2 =~= s1);
    }
}

/// Update-in-place idempotence of the stake update, in all three of its
/// modes: in place at the cursor, in place at a scanned slot, or appended.
pub proof fn lemma_set_stake_idempotent(s: StoreState, epoch: u16, stake: u64, rank: u32, is_superminority: bool)
    requires
        s.wf(),
    ensures
        ({
            let (s1, r1) = spec_set_stake(s, epoch, stake, rank, is_superminority);
            let (s2, r2) = spec_set_stake(s1, epoch, stake, rank, is_superminority);
            s2 == s1 && r2 == r1
        }),
{
    let b = s.buf;
    let (s1, r1) = spec_set_stake(s, epoch, stake, rank, is_superminority);
    let b1 = s1.buf;
    if b.last_is_epoch(epoch) {
        assert(b1.entries[b1.idx] == with_stake(b.entries[b.idx], stake, rank, is_superminority));
        assert(b1.last_is_epoch(epoch));
        assert(b1.entries.update(b1.idx, with_stake(b1.entries[b1.idx], stake, rank, is_superminority)) =~= b1.entries);
        assert(spec_set_stake(s1, epoch, stake, rank, is_superminority).0 =~= s1);
    } else if !b.empty && b.entries[b.idx].epoch > epoch {
        let j = find_epoch_from(b.entries, epoch, 0);
        lemma_find_epoch_found(b.entries, epoch, 0);
        if j < b.entries.len() {
            assert(j != b.idx);
            assert(b1.entries[b1.idx].epoch == b.entries[b.idx].epoch);
            assert(!b1.last_is_epoch(epoch));
            assert(forall|t: int| 0 <= t < b.entries.len() ==> b.entries[t].epoch == b1.entries[t].epoch);
            lemma_find_epoch_congruent(b.entries, b1.entries, epoch, 0);
            assert(find_epoch_from(b1.entries, epoch, 0) == j);
            assert(b1.entries[j] == with_stake(b.entries[j], stake, rank, is_superminority));
            assert(b1.entries.update(j, with_stake(b1.entries[j], stake, rank, is_superminority)) =~= b1.entries);
            assert(spec_set_stake(s1, epoch, stake, rank, is_superminority).0 =~= s1);
        }
    } else {
        lemma_mod_window(b.idx + 1);
        assert(b1.entries[b1.idx] == with_stake(epoch_started(epoch), stake, rank, is_superminority));
        assert(b1.last_is_epoch(epoch));
        assert(b1.entries.update(b1.idx, with_stake(b1.entries[b1.idx], stake, rank, is_superminority)) =~= b1.entries);
        assert(spec_set_stake(s1, epoch, stake, rank, is_superminority).0 =~= s1);
    }
}

/// Idempotence of the epoch-credits backfill: a second run of the same
/// batch stops at the cursor at once, because what it would write is
/// already written.
pub proof fn lemma_set_epoch_credits_idempotent(s: StoreState, batch: Seq<(u64, u64, u64)>)
    requires
        s.wf(),
    ensures
        ({
            let (s1, r1) = spec_set_epoch_credits(s, batch);
            let (s2, r2) = spec_set_epoch_credits(s1, batch);
            s2 == s1 && r2 == r1
        }),
{
    if batch.len() > 0 && batch_wf(batch) {
        let e0 = s.buf.entries;
        let idx = s.buf.idx;
        let k = walk_len_from(e0, batch, idx, 0);
        lemma_walk_len_bounds(e0, batch, idx, 0);
        let (s1, r1) = spec_set_epoch_credits(s, batch);
        let e1 = s1.buf.entries;
        lemma_mod_window(idx + (MAX_ITEMS as int));
        assert(walk_pos(idx, 0) == idx);
        assert(walk_pos(idx, idx) == 0) by {
            lemma_mod_window(idx + (MAX_ITEMS as int) - idx);
        }
        if k == 0 {
            lemma_backfill_zero(e0, batch, idx);
            assert(e1 =~= e0);
            assert(s1 =~= s);
        } else {
            assert(credits_continue(e0, batch, idx));
            assert(e1 == backfill_upto(e0, batch, idx, k));
            assert(e0.len() == MAX_ITEMS && 0 <= idx < MAX_ITEMS);
            assert(e1[idx] == with_epoch_credits(e0[idx], batch_lookup(batch, e0[idx].epoch)->0)) by {
                assert(walk_pos(idx, idx) < k);
            }
            assert(!credits_continue(e1, batch, idx));
            assert(walk_len_from(e1, batch, idx, 0) == 0);
            lemma_backfill_zero(e1, batch, idx);
            let (s2, r2) = spec_set_epoch_credits(s1, batch);
            assert(s2.buf.entries =~= e1);
            assert(s2 =~= s1);
        }
    }
}

/// Watermark monotonicity of the contact-info update: neither watermark
/// ever decreases, and an IPv4-carrying message whose timestamp is older
/// than either watermark is rejected as stale without mutating anything.
pub proof fn lemma_set_contact_info_watermarks(s: StoreState, epoch: u16, ci: ContactInfo, ts: u64)
    ensures
        ({
            let (s1, r1) = spec_set_contact_info(s, epoch, ci, ts);
            &&& s1.last_ip_timestamp >= s.last_ip_timestamp
            &&& s1.last_version_timestamp >= s.last_version_timestamp
            &&& (ci.addrs@[0] is V4 && (ts < s.last_ip_timestamp || ts < s.last_version_timestamp))
                ==> s1 == s && r1 == Err::<(), ValidatorHistoryError>(ValidatorHistoryError::StaleUpdate)
        }),
{
}

/// Watermark monotonicity of the legacy contact-info update, which guards
/// and advances the IP watermark only.
pub proof fn lemma_set_legacy_contact_info_watermarks(s: StoreState, epoch: u16, addr: IpAddress, ts: u64)
    ensures
        ({
            let (s1, r1) = spec_set_legacy_contact_info(s, epoch, addr, ts);
            &&& s1.last_ip_timestamp >= s.last_ip_timestamp
            &&& s1.last_version_timestamp == s.last_version_timestamp
            &&& (addr is V4 && ts < s.last_ip_timestamp)
                ==> s1 == s && r1 == Err::<(), ValidatorHistoryError>(ValidatorHistoryError::StaleUpdate)
        }),
{
}

/// Watermark monotonicity of the version updates, which guard and advance
/// the version watermark only.
pub proof fn lemma_set_version_watermarks(s: StoreState, epoch: u16, major: u16, minor: u16, patch: u16, ts: u64)
    ensures
        ({
            let (s1, r1) = spec_set_version(s, epoch, major, minor, patch, ts);
            &&& s1.last_version_timestamp >= s.last_version_timestamp
            &&& s1.last_ip_timestamp == s.last_ip_timestamp
            &&& ts < s.last_version_timestamp
                ==> s1 == s && r1 == Err::<(), ValidatorHistoryError>(ValidatorHistoryError::StaleUpdate)
        }),
{
}


/// No operation partially mutates state on failure: whenever a transition
/// reports an error, it returns the state exactly as it was.
pub proof fn lemma_no_mutation_on_failure(
    s: StoreState,
    epoch: u16,
    stake: u64,
    rank: u32,
    is_superminority: bool,
    ci: ContactInfo,
    addr: IpAddress,
    major: u16,
    minor: u16,
    patch: u16,
    ts: u64,
    batch: Seq<(u64, u64, u64)>,
)
    ensures
        spec_set_stake(s, epoch, stake, rank, is_superminority).1 is Err
            ==> spec_set_stake(s, epoch, stake, rank, is_superminority).0 == s,
        spec_set_version(s, epoch, major, minor, patch, ts).1 is Err
            ==> spec_set_version(s, epoch, major, minor, patch, ts).0 == s,
        spec_set_contact_info(s, epoch, ci, ts).1 is Err
            ==> spec_set_contact_info(s, epoch, ci, ts).0 == s,
        spec_set_legacy_contact_info(s, epoch, addr, ts).1 is Err
            ==> spec_set_legacy_contact_info(s, epoch, addr, ts).0 == s,
        spec_set_epoch_credits(s, batch).1 is Err ==> spec_set_epoch_credits(s, batch).0 == s,
{
}


} // verus!
