//! The keyed changelog facade over the circular log, its entry type, and
//! the pluggable key comparators.

use vstd::prelude::*;

verus! {

use crate::circular_log::{
    lemma_append_wf, lemma_length_after_appends, lemma_live_after_appends, lemma_live_append,
    lemma_live_index, spec_append, spec_append_all, spec_decode, spec_header_valid, spec_live,
    spec_phys_index, spec_required_size, spec_slots, spec_wf_view, CircularLog, LogError, LogView,
};
use crate::comparisons::manual_compare_32;

/// Equality over fixed-width keys, written as an explicit comparison loop.
pub trait ManualCompare: Copy {
    fn manual_compare(&self, other: &Self) -> (r: bool)
        ensures
            r <==> *self == *other,
    ;
}

impl ManualCompare for [u8; 32] {
    fn manual_compare(&self, other: &Self) -> (r: bool) {
        let mut i: usize = 0;
        while i < 32
            invariant
                0 <= i <= 32,
                forall|j: int| 0 <= j < i ==> self@[j] == other@[j],
            decreases 32 - i,
        {
            if self[i] != other[i] {
                return false;
            }
            i = i + 1;
        }
        proof {
            assert(*self =~= *other);
        }
        true
    }
}

/// Compares two 32-byte keys with every position written out explicitly.
pub fn unrolled_compare(a: &[u8; 32], b: &[u8; 32]) -> (r: bool)
    ensures
        r <==> a@ == b@,
{
    let r = a[0] == b[0] && a[1] == b[1] && a[2] == b[2] && a[3] == b[3] && a[4] == b[4] && a[5]
        == b[5] && a[6] == b[6] && a[7] == b[7] && a[8] == b[8] && a[9] == b[9] && a[10] == b[10]
        && a[11] == b[11] && a[12] == b[12] && a[13] == b[13] && a[14] == b[14] && a[15] == b[15]
        && a[16] == b[16] && a[17] == b[17] && a[18] == b[18] && a[19] == b[19] && a[20] == b[20]
        && a[21] == b[21] && a[22] == b[22] && a[23] == b[23] && a[24] == b[24] && a[25] == b[25]
        && a[26] == b[26] && a[27] == b[27] && a[28] == b[28] && a[29] == b[29] && a[30] == b[30]
        && a[31] == b[31];
    proof {
        if r {
            assert(a@ =~= b@);
        }
    }
    r
}

/// Compares two 32-byte keys by folding the differences of all positions
/// together with bitwise operations, without branching per byte.
pub fn branchless_compare(a: &[u8; 32], b: &[u8; 32]) -> (r: bool)
    ensures
        r <==> a@ == b@,
{
    let mut diff: u8 = 0;
    let mut i: usize = 0;
    while i < 32
        invariant
            0 <= i <= 32,
            diff == 0 <==> (forall|j: int| 0 <= j < i ==> a@[j] == b@[j]),
        decreases 32 - i,
    {
        let pa = a[i];
        let pb = b[i];
        let x = pa ^ pb;
        let old_diff = diff;
        proof {
            assert((pa ^ pb) == 0 <==> pa == pb) by (bit_vector);
            assert((old_diff | x) == 0 <==> old_diff == 0 && x == 0) by (bit_vector);
        }
        diff = diff | x;
        i = i + 1;
    }
    proof {
        if diff == 0 {
            assert(a@ =~= b@);
        }
    }
    diff == 0
}

/// Equality test named for its reference-identity shortcut: two keys held at
/// the same place are always equal, so the shortcut can only ever agree with
/// a content comparison, which is what this performs.
pub fn pointer_equality_compare(a: &[u8; 32], b: &[u8; 32]) -> (r: bool)
    ensures
        r <==> a@ == b@,
{
    manual_compare_32(a, b)
}

/// A record with a fixed-width key and a value, as stored in the log.
pub trait KeyValue {
    type Key: PartialEq;

    type Value: Copy;

    /// The key of the record, as a mathematical value.
    spec fn spec_key(&self) -> Self::Key;

    /// The value of the record, as a mathematical value.
    spec fn spec_value(&self) -> Self::Value;

    fn key(&self) -> (r: Self::Key)
        ensures
            r == self.spec_key(),
    ;

    fn value(&self) -> (r: Self::Value)
        ensures
            r == self.spec_value(),
    ;
}

/// One fixed-size key/value record: a `u64` value and a 32-byte key, laid
/// out in that order in the buffer.
#[derive(Clone, Copy, Debug)]
pub struct Entry {
    pub value: u64,
    pub mint: [u8; 32],
}

/// The mathematical content of an [`Entry`]: its key bytes and its value.
#[verifier::ext_equal]
pub ghost struct EntryView {
    pub key: Seq<u8>,
    pub value: u64,
}

impl View for Entry {
    type V = EntryView;

    open spec fn view(&self) -> EntryView {
        EntryView { key: self.mint@, value: self.value }
    }
}

impl Entry {
    pub fn new(mint: [u8; 32], value: u64) -> (r: Entry)
        ensures
            r@.key == mint@,
            r@.value == value,
    {
        Entry { value, mint }
    }
}

impl KeyValue for Entry {
    type Key = [u8; 32];

    type Value = u64;

    open spec fn spec_key(&self) -> [u8; 32] {
        self.mint
    }

    open spec fn spec_value(&self) -> u64 {
        self.value
    }

    fn key(&self) -> [u8; 32] {
        self.mint
    }

    fn value(&self) -> u64 {
        self.value
    }
}

/// The result of scanning the live entries `s` (ordered oldest to newest)
/// backward from the newest for at most `steps` entries: the value of the
/// newest entry whose key is `key`, if the scan reaches one.
pub open spec fn spec_find_from(s: Seq<EntryView>, key: Seq<u8>, steps: nat) -> Option<u64>
    decreases s.len(),
{
    if steps == 0 || s.len() == 0 {
        None
    } else if s.last().key == key {
        Some(s.last().value)
    } else {
        spec_find_from(s.drop_last(), key, (steps - 1) as nat)
    }
}

/// How many entries a backward scan with the given budget may visit: the
/// budget capped at the number of live entries; no budget means all of them.
pub open spec fn spec_steps(v: LogView, budget: Option<u64>) -> nat {
    match budget {
        Some(b) => if b < v.length {
            b as nat
        } else {
            v.length
        },
        None => v.length,
    }
}

/// What a lookup returns: the result of the budget-bounded backward scan
/// over the live entries of `v`.
pub open spec fn spec_find_latest(v: LogView, key: Seq<u8>, budget: Option<u64>) -> Option<u64> {
    spec_find_from(spec_live(v), key, spec_steps(v, budget))
}

/// A keyed facade over one circular log: `push` appends a record and
/// `find_latest` looks up the most recent value for a key.
#[derive(Debug)]
pub struct GenericChangelog {
    /// Once full, appends wrap around and overwrite the oldest entries.
    pub entries: CircularLog,
}

impl GenericChangelog {
    /// The underlying log is well-formed.
    pub open spec fn wf(&self) -> bool {
        self.entries.wf()
    }

    /// Lays a fresh changelog of the given capacity out over
    /// `backing_store`; see [`CircularLog::initialize`].
    pub fn new(capacity: u64, backing_store: Vec<u8>) -> (r: Result<GenericChangelog, LogError>)
        ensures
            match r {
                Ok(c) => {
                    &&& backing_store@.len() == spec_required_size(capacity as int)
                    &&& c.wf()
                    &&& c.entries@.capacity == capacity
                    &&& c.entries@.length == 0
                    &&& c.entries@.next == 0
                    &&& c.entries@.slots == spec_slots(backing_store@, capacity as int)
                },
                Err(e) => {
                    &&& e == LogError::SizeMismatch
                    &&& backing_store@.len() != spec_required_size(capacity as int)
                },
            },
    {
        match CircularLog::initialize(backing_store, capacity) {
            Ok(entries) => Ok(GenericChangelog { entries }),
            Err(e) => Err(e),
        }
    }

    /// Takes an already laid-out buffer as a changelog without modifying
    /// it; see [`CircularLog::reinterpret`].
    pub fn from_bytes(backing_store: Vec<u8>) -> (r: Result<GenericChangelog, LogError>)
        ensures
            match r {
                Ok(c) => {
                    &&& spec_header_valid(backing_store@)
                    &&& c.wf()
                    &&& c.entries.spec_bytes() == backing_store@
                    &&& c.entries@ == spec_decode(backing_store@)
                },
                Err(e) => {
                    &&& e == LogError::LayoutError
                    &&& !spec_header_valid(backing_store@)
                },
            },
    {
        match CircularLog::reinterpret(backing_store) {
            Ok(entries) => Ok(GenericChangelog { entries }),
            Err(e) => Err(e),
        }
    }

    /// Appends `entry`, overwriting the oldest entry once the log is full.
    pub fn push(&mut self, entry: Entry)
        requires
            old(self).wf(),
            old(self).entries@.capacity > 0,
        ensures
            final(self).wf(),
            final(self).entries@ == spec_append(old(self).entries@, entry@),
    {
        self.entries.append(entry);
    }

    /// Scans backward from the most recently written entry, comparing each
    /// visited entry's key against `key`, and returns the value of the
    /// first match — the most recently written one. Returns `None` when the
    /// log is empty, the budget runs out, or the scan exhausts the live
    /// entries without a match. `num_iters` bounds how many entries are
    /// visited; `None` means all live entries, and `Some(0)` finds nothing.
    /// The comparison strategy switch only selects between comparators that
    /// agree with byte-for-byte equality.
    pub fn find_latest<const USE_MANUAL_COMPARISON: bool>(
        &self,
        key: [u8; 32],
        num_iters: Option<u64>,
    ) -> (r: Option<u64>)
        requires
            self.wf(),
        ensures
            r == spec_find_latest(self.entries@, key@, num_iters),
    {
        let ghost v = self.entries@;
        proof {
            self.entries.lemma_decodes_from_bytes();
        }
        let length = self.entries.len();
        let max_iters = match num_iters {
            Some(n) => if n < length {
                n
            } else {
                length
            },
            None => length,
        };
        if max_iters == 0 || length == 0 {
            return None;
        }
        let mut current_index = self.entries.last_index();
        let mut iterations: u64 = 0;
        proof {
            assert(spec_live(v).take(v.length as int) =~= spec_live(v));
        }
        while iterations < max_iters
            invariant_except_break
                self.wf(),
                v == self.entries@,
                spec_wf_view(v),
                length == v.length,
                0 < length,
                max_iters == spec_steps(v, num_iters),
                0 < max_iters <= length,
                0 <= iterations <= max_iters,
                iterations < max_iters ==> current_index == spec_phys_index(
                    v,
                    v.length - 1 - iterations,
                ),
                spec_find_latest(v, key@, num_iters) == spec_find_from(
                    spec_live(v).take(v.length - iterations),
                    key@,
                    (max_iters - iterations) as nat,
                ),
            ensures
                spec_find_latest(v, key@, num_iters) is None,
            decreases max_iters - iterations,
        {
            let ghost j = v.length - 1 - iterations;
            proof {
                lemma_live_index(v, j);
                assert(spec_live(v).take(j + 1).last() == spec_live(v)[j]);
            }
            let entry = self.entries.get(current_index).unwrap();
            let keys_match = if USE_MANUAL_COMPARISON {
                entry.mint.manual_compare(&key)
            } else {
                unrolled_compare(&entry.mint, &key)
            };
            proof {
                if entry.mint@ == key@ {
                    assert(entry.mint =~= key);
                }
                assert(keys_match <==> entry.mint@ == key@);
            }
            if keys_match {
                return Some(entry.value);
            }
            proof {
                let s = (max_iters - iterations) as nat;
                assert(spec_live(v).take(j + 1).drop_last() =~= spec_live(v).take(j));
                assert(spec_find_from(spec_live(v).take(j + 1), key@, s) == spec_find_from(
                    spec_live(v).take(j),
                    key@,
                    (s - 1) as nat,
                ));
            }
            iterations = iterations + 1;
            if iterations < max_iters {
                if current_index == 0 {
                    if length == self.entries.capacity() {
                        current_index = self.entries.capacity() - 1;
                    } else {
                        // The scan has reached the oldest entry of a log
                        // that never filled up; with the step count capped
                        // at the length, there is nothing left to visit.
                        break;
                    }
                } else {
                    current_index = current_index - 1;
                }
            }
        }
        None
    }

    /// Number of entries the changelog currently holds.
    pub fn len(&self) -> (r: u64)
        ensures
            r == self.entries@.length,
    {
        self.entries.len()
    }

    /// Number of entries the changelog can hold before overwriting.
    pub fn capacity(&self) -> (r: u64)
        ensures
            r == self.entries@.capacity,
    {
        self.entries.capacity()
    }
}

/// A scan over all live entries succeeds exactly when some live entry holds
/// the key.
pub proof fn lemma_find_full(s: Seq<EntryView>, key: Seq<u8>)
    ensures
        spec_find_from(s, key, s.len()) is Some <==> exists|i: int|
            0 <= i < s.len() && s[i].key == key,
    decreases s.len(),
{
    if s.len() > 0 && s.last().key != key {
        lemma_find_full(s.drop_last(), key);
        if exists|i: int| 0 <= i < s.len() && s[i].key == key {
            let i = choose|i: int| 0 <= i < s.len() && s[i].key == key;
            assert(s.drop_last()[i] == s[i]);
        }
    }
}

/// A lookup with no budget finds a key exactly when some live entry holds
/// it.
pub proof fn lemma_find_latest_unbounded(v: LogView, key: Seq<u8>)
    requires
        spec_wf_view(v),
    ensures
        spec_find_latest(v, key, None) is Some <==> exists|i: int|
            0 <= i < spec_live(v).len() && spec_live(v)[i].key == key,
{
    if v.length > 0 {
        lemma_live_index(v, 0);
    }
    assert(spec_live(v).len() == v.length);
    lemma_find_full(spec_live(v), key);
}

/// Appending one more entry than the capacity makes the first entry's key
/// unfindable even with no budget — it was overwritten — while the keys of
/// all the other entries remain findable. The first key must not recur
/// among the later entries, otherwise its later occurrences are still live.
pub proof fn lemma_overwrite(v: LogView, es: Seq<EntryView>)
    requires
        spec_wf_view(v),
        v.capacity > 0,
        v.length == 0,
        es.len() == v.capacity + 1,
        forall|i: int| 1 <= i < es.len() ==> (#[trigger] es[i]).key != es[0].key,
    ensures
        spec_find_latest(spec_append_all(v, es), es[0].key, None) is None,
        forall|j: int|
            1 <= j < es.len() ==> spec_find_latest(spec_append_all(v, es), es[j].key, None)
                is Some,
{
    let w = spec_append_all(v, es);
    lemma_length_after_appends(v, es);
    lemma_live_after_appends(v, es);
    assert(spec_live(w) =~= es.subrange(1, es.len() as int));
    lemma_find_latest_unbounded(w, es[0].key);
    assert forall|j: int| 1 <= j < es.len() implies spec_find_latest(w, es[j].key, None)
        is Some by {
        lemma_find_latest_unbounded(w, es[j].key);
        assert(spec_live(w)[j - 1] == es[j]);
    }
}

/// The most recently appended entry's key is always found, with its value,
/// under any budget that allows at least one step.
pub proof fn lemma_most_recent_wins(v: LogView, e: EntryView, budget: Option<u64>)
    requires
        spec_wf_view(v),
        v.capacity > 0,
        budget matches Some(b) ==> b >= 1,
    ensures
        spec_find_latest(spec_append(v, e), e.key, budget) == Some(e.value),
{
    let w = spec_append(v, e);
    lemma_append_wf(v, e);
    lemma_live_append(v, e);
    assert(spec_live(w).last() == e);
    assert(spec_live(w).len() == w.length) by {
        lemma_live_index(w, 0);
    }
}

/// With a budget of one, exactly the newest live entry is examined.
pub proof fn lemma_budget_one(v: LogView, key: Seq<u8>)
    requires
        spec_wf_view(v),
    ensures
        spec_find_latest(v, key, Some(1u64)) == if v.length > 0 && spec_live(v).last().key == key {
            Some(spec_live(v).last().value)
        } else {
            None::<u64>
        },
{
    if v.length > 0 {
        lemma_live_index(v, 0);
        if spec_live(v).last().key != key {
            assert(spec_find_from(spec_live(v).drop_last(), key, 0) is None);
        }
    }
    assert(spec_live(v).len() == v.length);
}

/// A zero budget finds nothing, whatever the log holds.
pub proof fn lemma_zero_budget(v: LogView, key: Seq<u8>)
    ensures
        spec_find_latest(v, key, Some(0u64)) is None,
{
}

/// An empty log finds nothing, under any budget.
pub proof fn lemma_empty_log(v: LogView, key: Seq<u8>, budget: Option<u64>)
    requires
        spec_wf_view(v),
        v.length == 0,
    ensures
        spec_find_latest(v, key, budget) is None,
{
}

} // verus!
