//! Fixed-capacity circular buffer of history entries.
//!
//! Capacity is `MAX_ITEMS` slots. A write cursor points at the most recently
//! written slot and an explicit flag distinguishes "never written" from valid
//! data. `push` overwrites the oldest slot unconditionally; entries are never
//! deleted individually, only evicted when the cursor wraps around.

use vstd::prelude::*;

use crate::entry::ValidatorHistoryEntry;
use crate::entry::unset_entry;

verus! {

/// Number of slots in the circular buffer.
pub const MAX_ITEMS: usize = 512;

/// Mathematical state of a circular buffer: the slot contents, the cursor,
/// and whether anything has been written yet.
#[verifier::ext_equal]
pub struct BufState {
    pub entries: Seq<ValidatorHistoryEntry>,
    pub idx: int,
    pub empty: bool,
}

impl BufState {
    /// The cursor stays inside the fixed slot array.
    pub open spec fn wf(self) -> bool {
        &&& self.entries.len() == MAX_ITEMS
        &&& 0 <= self.idx < MAX_ITEMS
    }

    /// The most recently written slot holds a record for `epoch`.
    pub open spec fn last_is_epoch(self, epoch: u16) -> bool {
        !self.empty && self.entries[self.idx].epoch == epoch
    }

    /// Effect of one push: the cursor advances modulo capacity, the slot it
    /// lands on is overwritten, and the buffer is marked non-empty.
    pub open spec fn push(self, item: ValidatorHistoryEntry) -> BufState {
        let new_idx = (self.idx + 1) % (MAX_ITEMS as int);
        BufState {
            entries: self.entries.update(new_idx, item),
            idx: new_idx,
            empty: false,
        }
    }
}

/// The buffer state after pushing a sequence of entries in order.
pub open spec fn push_all(b: BufState, items: Seq<ValidatorHistoryEntry>) -> BufState
    decreases items.len(),
{
    if items.len() == 0 {
        b
    } else {
        push_all(b, items.drop_last()).push(items.last())
    }
}

/// The slot that the `t`-th push after cursor position `idx` writes.
pub open spec fn slot_of(idx: int, t: int) -> int {
    (idx + t + 1) % (MAX_ITEMS as int)
}

/// Splits a remainder by the slot count into its two linear cases.
pub(crate) proof fn lemma_mod_window(a: int)
    requires
        0 <= a < 2 * (MAX_ITEMS as int),
    ensures
        a % (MAX_ITEMS as int) == if a < MAX_ITEMS { a } else { a - (MAX_ITEMS as int) },
{
    if a < MAX_ITEMS {
        assert(a % (MAX_ITEMS as int) == a) by (nonlinear_arith)
            requires 0 <= a < MAX_ITEMS as int;
    } else {
        assert(a % (MAX_ITEMS as int) == a - (MAX_ITEMS as int)) by (nonlinear_arith)
            requires MAX_ITEMS as int <= a < 2 * (MAX_ITEMS as int);
    }
}

/// Pushing at most a full window of entries writes each of them to its own
/// slot, in order after the starting cursor, and leaves every other slot as
/// it was.
proof fn lemma_push_all_window(b: BufState, items: Seq<ValidatorHistoryEntry>)
    requires
        b.wf(),
        items.len() <= MAX_ITEMS,
    ensures
        ({
            let c = push_all(b, items);
            &&& c.wf()
            &&& c.idx == (b.idx + items.len()) % (MAX_ITEMS as int)
            &&& c.empty == (b.empty && items.len() == 0)
            &&& forall|t: int|
                0 <= t < items.len() ==> c.entries[#[trigger] slot_of(b.idx, t)] == items[t]
            &&& forall|j: int|
                0 <= j < MAX_ITEMS && !(exists|t: int|
                    0 <= t < items.len() && j == #[trigger] slot_of(b.idx, t))
                    ==> #[trigger] c.entries[j] == b.entries[j]
        }),
    decreases items.len(),
{
    if items.len() > 0 {
        lemma_push_all_window(b, items.drop_last());
        let len = items.len() as int;
        let c1 = push_all(b, items.drop_last());
        let c = c1.push(items.last());
        let w = slot_of(b.idx, len - 1);
        lemma_mod_window(b.idx + len);
        assert(c.idx == w);
        assert(0 <= w < MAX_ITEMS);
        assert(c.entries[w] == items[len - 1]);
        assert forall|t: int| 0 <= t < len implies c.entries[#[trigger] slot_of(b.idx, t)] == items[t] by {
            lemma_mod_window(b.idx + t + 1);
            if t < len - 1 {
                assert(slot_of(b.idx, t) != w);
                assert(c.entries[slot_of(b.idx, t)] == c1.entries[slot_of(b.idx, t)]);
                assert(c1.entries[slot_of(b.idx, t)] == items.drop_last()[t]);
            }
        }
        assert forall|j: int|
            0 <= j < MAX_ITEMS && !(exists|t: int|
                0 <= t < items.len() && j == #[trigger] slot_of(b.idx, t))
            implies #[trigger] c.entries[j] == b.entries[j] by {
            assert(j != w);
            assert(!(exists|t: int| 0 <= t < len - 1 && j == slot_of(b.idx, t)));
            assert(c1.entries[j] == b.entries[j]);
        }
    }
}

/// Pushing the oldest entries first and the newest afterwards is the same
/// as pushing them all at once.
proof fn lemma_push_all_split(b: BufState, s: Seq<ValidatorHistoryEntry>, t: Seq<ValidatorHistoryEntry>)
    ensures
        push_all(b, s + t) == push_all(push_all(b, s), t),
    decreases t.len(),
{
    if t.len() == 0 {
        assert(s + t =~= s);
    } else {
        lemma_push_all_split(b, s, t.drop_last());
        assert((s + t).drop_last() =~= s + t.drop_last());
        assert((s + t).last() == t.last());
        assert((s + t).len() > 0);
    }
}

/// Ring wraparound: pushing one more than a full window of entries with
/// pairwise distinct epochs into an empty buffer leaves it non-empty, with
/// the last pushed entry at the cursor, and with no slot left holding the
/// first pushed entry's epoch — that entry can no longer be found by epoch
/// lookup.
pub proof fn lemma_ring_wraparound(b: BufState, items: Seq<ValidatorHistoryEntry>)
    requires
        b.wf(),
        b.empty,
        items.len() == MAX_ITEMS + 1,
        forall|t1: int, t2: int|
            0 <= t1 < t2 < items.len() ==> items[t1].epoch != items[t2].epoch,
    ensures
        ({
            let c = push_all(b, items);
            &&& c.wf()
            &&& !c.empty
            &&& c.entries[c.idx] == items.last()
            &&& forall|j: int| 0 <= j < MAX_ITEMS ==> c.entries[j].epoch != items[0].epoch
        }),
{
    let first = items.take(1);
    let rest = items.skip(1);
    assert(first + rest =~= items);
    lemma_push_all_split(b, first, rest);
    assert(first.drop_last() =~= Seq::<ValidatorHistoryEntry>::empty());
    let c1 = push_all(b, first);
    assert(first.len() == 1);
    assert(first.last() == items[0]);
    assert(push_all(b, first.drop_last()) == b);
    assert(c1 == b.push(items[0]));
    lemma_mod_window(b.idx + 1);
    lemma_push_all_window(c1, rest);
    let c = push_all(c1, rest);
    lemma_mod_window(c1.idx + (MAX_ITEMS as int));
    assert(c.idx == c1.idx);
    assert(c.entries[slot_of(c1.idx, (MAX_ITEMS as int) - 1)] == rest[(MAX_ITEMS as int) - 1]);
    assert(c.entries[c.idx] == items.last());
    assert forall|j: int| 0 <= j < MAX_ITEMS implies c.entries[j].epoch != items[0].epoch by {
        let a = j + (MAX_ITEMS as int) - c1.idx - 1;
        lemma_mod_window(a);
        let t = a % (MAX_ITEMS as int);
        lemma_mod_window(c1.idx + t + 1);
        assert(j == slot_of(c1.idx, t));
        assert(c.entries[j] == rest[t]);
        assert(rest[t] == items[t + 1]);
    }
}

/// Fixed-capacity circular array of history entries plus the write cursor
/// and the empty flag. The slot vector is allocated once at capacity
/// `MAX_ITEMS` and never resized.
pub struct CircBuf {
    /// Index of the most recently written slot.
    pub idx: u64,
    /// 1 while nothing has been written, 0 afterwards.
    pub is_empty: u8,
    /// Keeps 8-byte alignment of the serialized layout.
    pub padding: [u8; 7],
    /// The slot array; always exactly `MAX_ITEMS` entries long.
    pub arr: Vec<ValidatorHistoryEntry>,
}

impl View for CircBuf {
    type V = BufState;

    open spec fn view(&self) -> BufState {
        BufState { entries: self.arr@, idx: self.idx as int, empty: self.is_empty == 1 }
    }
}

impl CircBuf {
    /// The slot array has its fixed capacity and the cursor is in range.
    pub open spec fn wf(self) -> bool {
        self@.wf()
    }

    /// Overwrites the oldest slot with `item` and advances the cursor.
    /// Never fails; after at least one push the buffer is non-empty.
    pub fn push(&mut self, item: ValidatorHistoryEntry)
        requires
            old(self).wf(),
        ensures
            final(self).wf(),
            final(self)@ == old(self)@.push(item),
            final(self).is_empty == 0,
            final(self).padding == old(self).padding,
    {
        self.idx = (self.idx + 1) % (MAX_ITEMS as u64);
        let i = self.idx as usize;
        self.arr[i] = item;
        self.is_empty = 0;
    }

    /// True while nothing has been pushed yet.
    pub fn is_empty(&self) -> (r: bool)
        ensures
            r == self@.empty,
    {
        self.is_empty == 1
    }

    /// The most recently written entry, or `None` while the buffer is empty.
    pub fn last(&self) -> (r: Option<&ValidatorHistoryEntry>)
        requires
            self.wf(),
        ensures
            match r {
                Some(e) => !self@.empty && *e == self@.entries[self@.idx],
                None => self@.empty,
            },
    {
        if self.is_empty() {
            None
        } else {
            Some(&self.arr[self.idx as usize])
        }
    }

    /// Mutable access to the most recently written entry, or `None` while
    /// the buffer is empty; the cursor and the flag stay as they are.
    pub fn last_mut(&mut self) -> (r: Option<&mut ValidatorHistoryEntry>)
        requires
            old(self).wf(),
        ensures
            final(self).idx == old(self).idx,
            final(self).is_empty == old(self).is_empty,
            final(self).padding == old(self).padding,
            old(self)@.empty ==> r is None && *final(self) == *old(self),
            !old(self)@.empty ==> match r {
                Some(e) => {
                    &&& *e == old(self)@.entries[old(self)@.idx]
                    &&& final(self)@ == (BufState {
                        entries: old(self)@.entries.update(old(self)@.idx, *final(e)),
                        ..old(self)@
                    })
                    &&& final(self).wf()
                },
                None => false,
            },
    {
        if self.is_empty() {
            None
        } else {
            Some(&mut self.arr[self.idx as usize])
        }
    }

    /// Mutable access to the whole slot array for linear scans; the cursor
    /// and the flag stay as they are.
    pub fn arr_mut(&mut self) -> (r: &mut Vec<ValidatorHistoryEntry>)
        ensures
            *r == old(self).arr,
            final(self).arr == *final(r),
            final(self).idx == old(self).idx,
            final(self).is_empty == old(self).is_empty,
            final(self).padding == old(self).padding,
    {
        &mut self.arr
    }
}

impl Default for CircBuf {
    /// A fresh buffer: every slot all-sentinel, cursor at zero, marked empty.
    fn default() -> (b: Self)
        ensures
            b.wf(),
            b@.empty,
            b@.idx == 0,
            forall|j: int| 0 <= j < MAX_ITEMS ==> b@.entries[j] == unset_entry(),
    {
        let mut arr: Vec<ValidatorHistoryEntry> = Vec::new();
        let mut n: usize = 0;
        while n < MAX_ITEMS
            invariant
                n <= MAX_ITEMS,
                arr@.len() == n,
                forall|j: int| 0 <= j < n ==> arr@[j] == unset_entry(),
            decreases MAX_ITEMS - n,
        {
            arr.push(ValidatorHistoryEntry::default());
            n = n + 1;
        }
        CircBuf { idx: 0, is_empty: 1, padding: [0u8; 7], arr }
    }
}

} // verus!
