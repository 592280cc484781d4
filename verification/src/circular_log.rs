//! The fixed-capacity circular log: a validated, bounds-checked view over a
//! caller-supplied byte buffer.
//!
//! Layout of the buffer, fixed so that two processes agree on it:
//! a header of three little-endian `u64` fields — capacity, length,
//! next-write index — followed by `capacity` contiguous 40-byte entry slots,
//! each a `u64` value in little-endian order and then 32 key bytes.

use vstd::prelude::*;

verus! {

use crate::changelog::{Entry, EntryView};
use crate::encoding::{read_bytes32_at, read_u64_at, spec_u64_at, write_bytes32_at, write_u64_at};

/// Number of bytes of the header: three `u64` fields.
pub const HEADER_SIZE: u64 = 24;

/// Number of bytes of one entry slot: a `u64` value and a 32-byte key.
pub const ENTRY_SIZE: u64 = 40;

/// The largest capacity whose required buffer size still fits in `u64`.
pub const MAX_CAPACITY: u64 = (u64::MAX - HEADER_SIZE) / ENTRY_SIZE;

/// Construction-time validation failures.
#[derive(Clone, Copy, Debug, PartialEq, Eq, Structural)]
pub enum LogError {
    /// The buffer handed to `initialize` does not have exactly the required
    /// size for the requested capacity.
    SizeMismatch,
    /// The buffer handed to `reinterpret` is too small for a header, or its
    /// header is inconsistent with the buffer or with itself.
    LayoutError,
}

/// The exact number of buffer bytes needed for a log of the given capacity.
pub open spec fn spec_required_size(capacity: int) -> int {
    HEADER_SIZE + capacity * ENTRY_SIZE
}

/// Byte offset of entry slot `i`.
pub open spec fn spec_slot_offset(i: int) -> int {
    HEADER_SIZE + i * ENTRY_SIZE
}

/// The capacity field stored in the header of `b`.
pub open spec fn spec_header_capacity(b: Seq<u8>) -> u64 {
    spec_u64_at(b, 0)
}

/// The length field stored in the header of `b`.
pub open spec fn spec_header_length(b: Seq<u8>) -> u64 {
    spec_u64_at(b, 8)
}

/// The next-write-index field stored in the header of `b`.
pub open spec fn spec_header_next(b: Seq<u8>) -> u64 {
    spec_u64_at(b, 16)
}

/// The entry stored in slot `i` of `b`.
pub open spec fn spec_slot_at(b: Seq<u8>, i: int) -> EntryView {
    EntryView {
        key: b.subrange(spec_slot_offset(i) + 8, spec_slot_offset(i) + 40),
        value: spec_u64_at(b, spec_slot_offset(i)),
    }
}

/// All `capacity` entry slots of `b`, in slot order.
pub open spec fn spec_slots(b: Seq<u8>, capacity: int) -> Seq<EntryView> {
    Seq::new(capacity as nat, |i: int| spec_slot_at(b, i))
}

/// Whether `b` holds a header that is consistent with the buffer size and
/// with itself: the buffer can hold all declared slots, the length never
/// exceeds the capacity, and the next-write index is the one that the
/// declared number of appends would have produced.
pub open spec fn spec_header_valid(b: Seq<u8>) -> bool {
    let capacity = spec_header_capacity(b) as int;
    let length = spec_header_length(b) as int;
    let next = spec_header_next(b) as int;
    &&& b.len() >= HEADER_SIZE
    &&& spec_required_size(capacity) <= b.len()
    &&& length <= capacity
    &&& (length < capacity ==> next == length)
    &&& (capacity > 0 ==> next < capacity)
    &&& (capacity == 0 ==> next == 0)
}

/// The observable state of a circular log.
#[verifier::ext_equal]
pub ghost struct LogView {
    /// Number of entry slots; fixed at creation.
    pub capacity: nat,
    /// Number of slots ever written, capped at the capacity.
    pub length: nat,
    /// Slot that the next append will overwrite.
    pub next: nat,
    /// The contents of every slot, in slot order.
    pub slots: Seq<EntryView>,
}

/// Well-formedness of a log view; every constructed log satisfies it.
pub open spec fn spec_wf_view(v: LogView) -> bool {
    &&& v.slots.len() == v.capacity
    &&& v.length <= v.capacity
    &&& (v.length < v.capacity ==> v.next == v.length)
    &&& (v.capacity > 0 ==> v.next < v.capacity)
    &&& (v.capacity == 0 ==> v.next == 0)
}

/// The log state recorded in a buffer with a valid header.
pub open spec fn spec_decode(b: Seq<u8>) -> LogView
    recommends
        spec_header_valid(b),
{
    LogView {
        capacity: spec_header_capacity(b) as nat,
        length: spec_header_length(b) as nat,
        next: spec_header_next(b) as nat,
        slots: spec_slots(b, spec_header_capacity(b) as int),
    }
}

/// A fixed-capacity ring of fixed-size records stored in a byte buffer,
/// overwriting the oldest record once full.
#[derive(Debug)]
pub struct CircularLog {
    capacity: u64,
    length: u64,
    next: u64,
    bytes: Vec<u8>,
}

impl View for CircularLog {
    type V = LogView;

    closed spec fn view(&self) -> LogView {
        LogView {
            capacity: self.capacity as nat,
            length: self.length as nat,
            next: self.next as nat,
            slots: spec_slots(self.bytes@, self.capacity as int),
        }
    }
}

impl CircularLog {
    /// The bytes of the backing buffer.
    pub closed spec fn spec_bytes(&self) -> Seq<u8> {
        self.bytes@
    }

    /// The buffer holds a valid header and the cached counters agree with
    /// it; constructors establish this and every method preserves it.
    pub closed spec fn wf(&self) -> bool {
        &&& spec_header_valid(self.bytes@)
        &&& self.capacity == spec_header_capacity(self.bytes@)
        &&& self.length == spec_header_length(self.bytes@)
        &&& self.next == spec_header_next(self.bytes@)
    }

    /// A well-formed log records exactly its observable state in its bytes,
    /// so the state survives a round trip through the buffer.
    pub proof fn lemma_decodes_from_bytes(&self)
        requires
            self.wf(),
        ensures
            spec_header_valid(self.spec_bytes()),
            spec_decode(self.spec_bytes()) == self@,
            spec_wf_view(self@),
            self@.capacity <= MAX_CAPACITY,
            spec_required_size(self@.capacity as int) <= self.spec_bytes().len(),
    {
        assert(self.bytes.len() == self.bytes@.len());
    }

    /// The observable state of a well-formed log is a function of the bytes
    /// of its buffer alone.
    pub proof fn lemma_view_determined_by_bytes(a: &CircularLog, b: &CircularLog)
        requires
            a.wf(),
            b.wf(),
            a.spec_bytes() == b.spec_bytes(),
        ensures
            a@ == b@,
    {
    }

    /// The exact byte length needed to host a log of the given capacity.
    pub fn required_size(capacity: u64) -> (r: u64)
        requires
            capacity <= MAX_CAPACITY,
        ensures
            r == spec_required_size(capacity as int),
    {
        HEADER_SIZE + capacity * ENTRY_SIZE
    }

    /// Lays a fresh log of the given capacity out over `buffer`: writes a
    /// header recording the capacity, a length of zero and a next-write
    /// index of zero, and leaves every entry slot byte unchanged. Fails
    /// with `SizeMismatch` exactly when the buffer's length is not the
    /// required size for the capacity.
    pub fn initialize(buffer: Vec<u8>, capacity: u64) -> (r: Result<CircularLog, LogError>)
        ensures
            match r {
                Ok(log) => {
                    &&& buffer@.len() == spec_required_size(capacity as int)
                    &&& log.wf()
                    &&& log@.capacity == capacity
                    &&& log@.length == 0
                    &&& log@.next == 0
                    &&& log@.slots == spec_slots(buffer@, capacity as int)
                    &&& log.spec_bytes().len() == buffer@.len()
                },
                Err(e) => {
                    &&& e == LogError::SizeMismatch
                    &&& buffer@.len() != spec_required_size(capacity as int)
                },
            },
    {
        proof {
            assert(buffer.len() == buffer@.len());
        }
        if capacity > MAX_CAPACITY {
            return Err(LogError::SizeMismatch);
        }
        let required = Self::required_size(capacity);
        if buffer.len() as u64 != required {
            return Err(LogError::SizeMismatch);
        }
        let ghost original = buffer@;
        let mut bytes = buffer;
        write_u64_at(&mut bytes, 0, capacity);
        let ghost b1 = bytes@;
        write_u64_at(&mut bytes, 8, 0);
        let ghost b2 = bytes@;
        write_u64_at(&mut bytes, 16, 0);
        proof {
            assert(bytes@.subrange(0, 8) =~= b1.subrange(0, 8));
            assert(bytes@.subrange(8, 16) =~= b2.subrange(8, 16));
            lemma_slots_frame(original, bytes@, capacity as int);
        }
        let log = CircularLog { capacity, length: 0, next: 0, bytes };
        Ok(log)
    }

    /// Takes an already laid-out buffer as a log, reading capacity, length
    /// and next-write index from its header without modifying any byte.
    /// Fails with `LayoutError` exactly when the buffer is too small for a
    /// header or the header is inconsistent (the declared capacity needs
    /// more bytes than the buffer has, or the counters could not have come
    /// from a sequence of appends).
    pub fn reinterpret(buffer: Vec<u8>) -> (r: Result<CircularLog, LogError>)
        ensures
            match r {
                Ok(log) => {
                    &&& spec_header_valid(buffer@)
                    &&& log.wf()
                    &&& log.spec_bytes() == buffer@
                    &&& log@ == spec_decode(buffer@)
                },
                Err(e) => {
                    &&& e == LogError::LayoutError
                    &&& !spec_header_valid(buffer@)
                },
            },
    {
        proof {
            assert(buffer.len() == buffer@.len());
        }
        if (buffer.len() as u64) < HEADER_SIZE {
            return Err(LogError::LayoutError);
        }
        let capacity = read_u64_at(&buffer, 0);
        let length = read_u64_at(&buffer, 8);
        let next = read_u64_at(&buffer, 16);
        if capacity > MAX_CAPACITY {
            return Err(LogError::LayoutError);
        }
        let required = Self::required_size(capacity);
        if (buffer.len() as u64) < required {
            return Err(LogError::LayoutError);
        }
        if length > capacity {
            return Err(LogError::LayoutError);
        }
        if length < capacity && next != length {
            return Err(LogError::LayoutError);
        }
        if capacity > 0 && next >= capacity {
            return Err(LogError::LayoutError);
        }
        if capacity == 0 && next != 0 {
            return Err(LogError::LayoutError);
        }
        Ok(CircularLog { capacity, length, next, bytes: buffer })
    }

    /// Writes `entry` into the slot at the next-write index, overwriting
    /// whatever was there, then advances the next-write index with
    /// wraparound and raises the length up to the ceiling of the capacity.
    /// This cannot fail on a log with at least one slot.
    pub fn append(&mut self, entry: Entry)
        requires
            old(self).wf(),
            old(self)@.capacity > 0,
        ensures
            final(self).wf(),
            final(self)@ == spec_append(old(self)@, entry@),
            final(self).spec_bytes().len() == old(self).spec_bytes().len(),
    {
        proof {
            assert(self.bytes.len() == self.bytes@.len());
        }
        let ghost b0 = self.bytes@;
        let slot = self.next;
        proof {
            assert(spec_slot_offset(slot as int) + ENTRY_SIZE <= self.bytes@.len());
        }
        let off = HEADER_SIZE as usize + (slot as usize) * (ENTRY_SIZE as usize);
        write_u64_at(&mut self.bytes, off, entry.value);
        let ghost b1 = self.bytes@;
        write_bytes32_at(&mut self.bytes, off + 8, &entry.mint);
        let ghost b2 = self.bytes@;
        let new_length = if self.length < self.capacity {
            self.length + 1
        } else {
            self.length
        };
        let new_next = if self.next + 1 == self.capacity {
            0
        } else {
            self.next + 1
        };
        write_u64_at(&mut self.bytes, 8, new_length);
        let ghost b3 = self.bytes@;
        write_u64_at(&mut self.bytes, 16, new_next);
        let ghost b4 = self.bytes@;
        self.length = new_length;
        self.next = new_next;
        proof {
            let cap = self.capacity as int;
            let j = slot as int;
            // The header capacity field is untouched by all four writes.
            assert(b4.subrange(0, 8) =~= b0.subrange(0, 8));
            // The length and next fields hold the values just written.
            assert(b4.subrange(8, 16) =~= b3.subrange(8, 16));
            // The value and key bytes of the written slot are untouched by
            // the header writes.
            assert(b4.subrange(off as int, off + 8) =~= b1.subrange(off as int, off + 8));
            assert(b4.subrange(off + 8, off + 40) =~= b2.subrange(off + 8, off + 40));
            assert(spec_slot_at(b4, j) == entry@);
            lemma_slots_update(b0, b4, cap, j);
            assert(self@.slots =~= old(self)@.slots.update(j, entry@));
        }
    }

    /// Returns the entry at raw slot `index` when that slot has ever been
    /// written — that is, when `index` is below the length — and `None`
    /// otherwise.
    pub fn get(&self, index: u64) -> (r: Option<Entry>)
        requires
            self.wf(),
        ensures
            r is Some <==> index < self@.length,
            r matches Some(e) ==> e@ == self@.slots[index as int],
    {
        proof {
            assert(self.bytes.len() == self.bytes@.len());
        }
        if index < self.length {
            proof {
                assert(spec_slot_offset(index as int) + ENTRY_SIZE <= self.bytes@.len());
            }
            let off = HEADER_SIZE as usize + (index as usize) * (ENTRY_SIZE as usize);
            let value = read_u64_at(&self.bytes, off);
            let mint = read_bytes32_at(&self.bytes, off + 8);
            Some(Entry { value, mint })
        } else {
            None
        }
    }

    /// The slot index of the most recently written entry; the log must hold
    /// at least one entry.
    pub fn last_index(&self) -> (r: u64)
        requires
            self.wf(),
            self@.length > 0,
        ensures
            r == spec_last_index(self@),
    {
        if self.next == 0 {
            self.capacity - 1
        } else {
            self.next - 1
        }
    }

    /// Number of entries the log currently holds.
    pub fn len(&self) -> (r: u64)
        ensures
            r == self@.length,
    {
        self.length
    }

    /// Number of entry slots the log was created with.
    pub fn capacity(&self) -> (r: u64)
        ensures
            r == self@.capacity,
    {
        self.capacity
    }

    /// The backing buffer, unchanged, for persisting or reinterpreting.
    pub fn bytes(&self) -> (r: &Vec<u8>)
        ensures
            r@ == self.spec_bytes(),
    {
        &self.bytes
    }
}

/// The state of a log after appending one entry: the entry lands in the
/// slot at the next-write index, the next-write index advances with
/// wraparound, and the length grows until it reaches the capacity.
pub open spec fn spec_append(v: LogView, e: EntryView) -> LogView
    recommends
        spec_wf_view(v),
        v.capacity > 0,
{
    LogView {
        capacity: v.capacity,
        length: if v.length < v.capacity {
            v.length + 1
        } else {
            v.length
        },
        next: if v.next + 1 == v.capacity {
            0
        } else {
            v.next + 1
        },
        slots: v.slots.update(v.next as int, e),
    }
}

/// The slot index of the most recently written entry of `v`.
pub open spec fn spec_last_index(v: LogView) -> int
    recommends
        spec_wf_view(v),
        v.length > 0,
{
    if v.next == 0 {
        v.capacity - 1
    } else {
        v.next - 1
    }
}

/// Appending preserves well-formedness, keeps the capacity, and caps the
/// length at the capacity.
pub proof fn lemma_append_wf(v: LogView, e: EntryView)
    requires
        spec_wf_view(v),
        v.capacity > 0,
    ensures
        spec_wf_view(spec_append(v, e)),
        spec_append(v, e).capacity == v.capacity,
        spec_append(v, e).length == if v.length + 1 <= v.capacity {
            (v.length + 1) as int
        } else {
            v.capacity as int
        },
{
}

/// The entries of `v` that a backward scan may visit, ordered from oldest
/// to newest. Before the log has wrapped these are the first `length`
/// slots; once full, they are all slots, starting at the next-write index,
/// which holds the oldest entry.
pub open spec fn spec_live(v: LogView) -> Seq<EntryView>
    recommends
        spec_wf_view(v),
{
    if v.length < v.capacity {
        v.slots.take(v.length as int)
    } else {
        v.slots.subrange(v.next as int, v.capacity as int) + v.slots.subrange(0, v.next as int)
    }
}

/// The slot that holds the `j`-th oldest live entry of `v`.
pub open spec fn spec_phys_index(v: LogView, j: int) -> int
    recommends
        spec_wf_view(v),
        0 <= j < v.length,
{
    if v.length < v.capacity {
        j
    } else if v.next + j < v.capacity {
        v.next + j
    } else {
        v.next + j - v.capacity
    }
}

/// There are as many live entries as the length counts, and the `j`-th
/// oldest of them sits in the slot that `spec_phys_index` names.
pub proof fn lemma_live_index(v: LogView, j: int)
    requires
        spec_wf_view(v),
        0 <= j < v.length,
    ensures
        spec_live(v).len() == v.length,
        0 <= spec_phys_index(v, j) < v.capacity,
        spec_live(v)[j] == v.slots[spec_phys_index(v, j)],
{
}

/// How one append changes the live entries: the new entry becomes the
/// newest, and when the log is already full the oldest disappears.
pub proof fn lemma_live_append(v: LogView, e: EntryView)
    requires
        spec_wf_view(v),
        v.capacity > 0,
    ensures
        spec_live(spec_append(v, e)) == if v.length < v.capacity {
            spec_live(v).push(e)
        } else {
            spec_live(v).drop_first().push(e)
        },
{
    let w = spec_append(v, e);
    if v.length < v.capacity {
        assert(spec_live(w) =~= spec_live(v).push(e));
    } else {
        assert(spec_live(w) =~= spec_live(v).drop_first().push(e));
    }
}

/// The state of a log after appending a whole sequence of entries in order.
pub open spec fn spec_append_all(v: LogView, es: Seq<EntryView>) -> LogView
    decreases es.len(),
{
    if es.len() == 0 {
        v
    } else {
        spec_append(spec_append_all(v, es.drop_last()), es.last())
    }
}

/// After any sequence of appends to a freshly created log, the length is
/// the number of appends capped at the capacity — and so never exceeds it.
pub proof fn lemma_length_after_appends(v: LogView, es: Seq<EntryView>)
    requires
        spec_wf_view(v),
        v.capacity > 0,
        v.length == 0,
    ensures
        spec_wf_view(spec_append_all(v, es)),
        spec_append_all(v, es).capacity == v.capacity,
        spec_append_all(v, es).length == if es.len() <= v.capacity {
            es.len() as int
        } else {
            v.capacity as int
        },
    decreases es.len(),
{
    if es.len() > 0 {
        lemma_length_after_appends(v, es.drop_last());
        lemma_append_wf(spec_append_all(v, es.drop_last()), es.last());
    }
}

/// After any sequence of appends to a freshly created log, the live entries
/// are exactly the last `capacity` entries appended (all of them, while
/// they still fit), oldest first.
pub proof fn lemma_live_after_appends(v: LogView, es: Seq<EntryView>)
    requires
        spec_wf_view(v),
        v.capacity > 0,
        v.length == 0,
    ensures
        spec_live(spec_append_all(v, es)) == if es.len() <= v.capacity {
            es
        } else {
            es.subrange(es.len() - v.capacity, es.len() as int)
        },
    decreases es.len(),
{
    if es.len() == 0 {
        assert(spec_live(spec_append_all(v, es)) =~= es);
    } else {
        let prefix = es.drop_last();
        let w = spec_append_all(v, prefix);
        lemma_live_after_appends(v, prefix);
        lemma_length_after_appends(v, prefix);
        lemma_live_append(w, es.last());
        if es.len() <= v.capacity {
            assert(spec_live(spec_append_all(v, es)) =~= es);
        } else {
            assert(spec_live(spec_append_all(v, es)) =~= es.subrange(
                es.len() - v.capacity,
                es.len() as int,
            ));
        }
    }
}

/// Two buffers of equal size that agree on every byte outside the 40-byte
/// region of slot `j` (the header included) hold the same slot contents
/// except possibly at `j`.
pub proof fn lemma_slots_update(b1: Seq<u8>, b2: Seq<u8>, capacity: int, j: int)
    requires
        b1.len() == b2.len(),
        0 <= j < capacity,
        spec_required_size(capacity) <= b1.len(),
        forall|i: int|
            HEADER_SIZE <= i < b1.len() && !(spec_slot_offset(j) <= i < spec_slot_offset(j)
                + ENTRY_SIZE) ==> b1[i] == b2[i],
    ensures
        spec_slots(b2, capacity) == spec_slots(b1, capacity).update(j, spec_slot_at(b2, j)),
{
    assert forall|i: int| 0 <= i < capacity && i != j implies spec_slot_at(b1, i) == spec_slot_at(
        b2,
        i,
    ) by {
        let off = spec_slot_offset(i);
        assert(off + 40 <= b1.len());
        assert(b1.subrange(off, off + 8) =~= b2.subrange(off, off + 8));
        assert(b1.subrange(off + 8, off + 40) =~= b2.subrange(off + 8, off + 40));
    }
    assert(spec_slots(b2, capacity) =~= spec_slots(b1, capacity).update(j, spec_slot_at(b2, j)));
}

/// Two buffers of equal size that agree on every byte past the header hold
/// the same slot contents.
pub proof fn lemma_slots_frame(b1: Seq<u8>, b2: Seq<u8>, capacity: int)
    requires
        b1.len() == b2.len(),
        0 <= capacity,
        spec_required_size(capacity) <= b1.len(),
        forall|i: int| HEADER_SIZE <= i < b1.len() ==> b1[i] == b2[i],
    ensures
        spec_slots(b1, capacity) == spec_slots(b2, capacity),
{
    assert forall|i: int| 0 <= i < capacity implies spec_slot_at(b1, i) == spec_slot_at(b2, i) by {
        let off = spec_slot_offset(i);
        assert(off + 40 <= b1.len());
        assert(b1.subrange(off, off + 8) =~= b2.subrange(off, off + 8));
        assert(b1.subrange(off + 8, off + 40) =~= b2.subrange(off + 8, off + 40));
    }
    assert(spec_slots(b1, capacity) =~= spec_slots(b2, capacity));
}

} // verus!
