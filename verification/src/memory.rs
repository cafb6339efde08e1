//! Addressable memory: a sparse mapping from (address space, pointer) to
//! field elements, together with a timestamp and an append-only access log.
//!
//! Addresses are pairs `(address_space, pointer)` of 32-bit integers, packed
//! into a single 64-bit key. Absent cells read as zero. Every read or write
//! appends exactly one log entry and advances the timestamp by exactly one;
//! explicit timestamp jumps append their own entry. The log is what a later
//! offline memory-consistency argument consumes, so its shape is part of the
//! contract.

use vstd::prelude::*;

use crate::field::Felt;

verus! {

/// Packs an address into the 64-bit key used by the memory image.
pub open spec fn key_spec(address_space: u32, pointer: int) -> u64 {
    (address_space * 0x1_0000_0000 + pointer) as u64
}

/// Packed keys agree exactly when both address components agree.
pub proof fn lemma_key_injective(s1: u32, p1: int, s2: u32, p2: int)
    requires
        0 <= p1 < 0x1_0000_0000,
        0 <= p2 < 0x1_0000_0000,
    ensures
        key_spec(s1, p1) == key_spec(s2, p2) <==> (s1 == s2 && p1 == p2),
{
    assert(key_spec(s1, p1) == key_spec(s2, p2) ==> (s1 == s2 && p1 == p2)) by (nonlinear_arith)
        requires
            0 <= p1 < 0x1_0000_0000,
            0 <= p2 < 0x1_0000_0000,
            s1 < 0x1_0000_0000,
            s2 < 0x1_0000_0000,
            key_spec(s1, p1) == (s1 * 0x1_0000_0000 + p1) as u64,
            key_spec(s2, p2) == (s2 * 0x1_0000_0000 + p2) as u64;
}

/// Packs an address into the 64-bit key used by the memory image.
pub fn address_key(address_space: u32, pointer: u32) -> (r: u64)
    ensures
        r == key_spec(address_space, pointer as int),
{
    (address_space as u64) * 0x1_0000_0000u64 + (pointer as u64)
}

/// The mathematical mapping held by a sequence of key/value entries;
/// later entries shadow earlier ones.
pub open spec fn map_of<V>(entries: Seq<(u64, V)>) -> Map<u64, V>
    decreases entries.len(),
{
    if entries.len() == 0 {
        Map::empty()
    } else {
        map_of(entries.drop_last()).insert(entries.last().0, entries.last().1)
    }
}

/// No key occurs twice in the entry sequence.
pub open spec fn unique_keys<V>(entries: Seq<(u64, V)>) -> bool {
    forall|i: int, j: int|
        0 <= i < j < entries.len() ==> (#[trigger] entries[i]).0 != (#[trigger] entries[j]).0
}

/// A key is in the mapping exactly when some entry carries it.
pub proof fn lemma_map_of_domain<V>(entries: Seq<(u64, V)>, k: u64)
    ensures
        map_of(entries).dom().contains(k) <==> exists|i: int|
            0 <= i < entries.len() && (#[trigger] entries[i]).0 == k,
    decreases entries.len(),
{
    if entries.len() > 0 {
        lemma_map_of_domain(entries.drop_last(), k);
        if entries.last().0 == k {
            assert(entries[entries.len() - 1].0 == k);
        } else if map_of(entries).dom().contains(k) {
            let i = choose|i: int| 0 <= i < entries.drop_last().len() && (#[trigger] entries.drop_last()[i]).0 == k;
            assert(entries[i].0 == k);
        } else {
            assert forall|i: int| 0 <= i < entries.len() && (#[trigger] entries[i]).0 == k implies false by {
                if i < entries.len() - 1 {
                    assert(entries.drop_last()[i].0 == k);
                }
            }
        }
    }
}

/// With unique keys, the entry that carries a key gives its mapped value.
pub proof fn lemma_map_of_index<V>(entries: Seq<(u64, V)>, i: int)
    requires
        unique_keys(entries),
        0 <= i < entries.len(),
    ensures
        map_of(entries).dom().contains(entries[i].0),
        map_of(entries)[entries[i].0] == entries[i].1,
    decreases entries.len(),
{
    lemma_map_of_domain(entries, entries[i].0);
    if i < entries.len() - 1 {
        assert(entries[i].0 != entries.last().0);
        assert(entries.drop_last()[i] == entries[i]);
        lemma_map_of_index(entries.drop_last(), i);
    }
}

/// Replacing the value at one entry updates the mapping at that key alone.
pub proof fn lemma_map_of_update<V>(entries: Seq<(u64, V)>, i: int, v: V)
    requires
        unique_keys(entries),
        0 <= i < entries.len(),
    ensures
        map_of(entries.update(i, (entries[i].0, v))) == map_of(entries).insert(entries[i].0, v),
    decreases entries.len(),
{
    let k = entries[i].0;
    let upd = entries.update(i, (k, v));
    if i == entries.len() - 1 {
        assert(upd.drop_last() =~= entries.drop_last());
        assert(map_of(upd) =~= map_of(entries).insert(k, v));
    } else {
        assert(upd.drop_last() =~= entries.drop_last().update(i, (k, v)));
        assert(entries.drop_last()[i] == entries[i]);
        lemma_map_of_update(entries.drop_last(), i, v);
        assert(entries.last().0 != k);
        assert(upd.last() == entries.last());
        assert(map_of(upd) =~= map_of(entries).insert(k, v));
    }
}

/// The sparse final image of a memory: a finite mapping from packed address
/// keys to field elements, with absent cells meaning zero.
#[derive(Clone, Debug)]
pub struct MemoryImage {
    entries: Vec<(u64, Felt)>,
}

impl MemoryImage {
    /// The mathematical mapping this image holds.
    pub closed spec fn view(&self) -> Map<u64, Felt> {
        map_of(self.entries@)
    }

    /// Internal consistency: one entry per key, canonical values.
    pub closed spec fn wf(&self) -> bool {
        unique_keys(self.entries@) && forall|i: int|
            0 <= i < self.entries@.len() ==> (#[trigger] self.entries@[i]).1.valid()
    }

    /// All values held by the mapping are canonical field elements.
    pub open spec fn values_valid(&self) -> bool {
        forall|k: u64| self@.dom().contains(k) ==> (#[trigger] self@[k]).valid()
    }

    /// An empty image: every cell reads as zero.
    pub fn new() -> (r: MemoryImage)
        ensures
            r.wf(),
            r@ == Map::<u64, Felt>::empty(),
    {
        MemoryImage { entries: Vec::new() }
    }

    /// The entries as a flat list of key/value pairs (order unspecified
    /// beyond carrying exactly the mapping's contents).
    pub fn to_entries(&self) -> (r: Vec<(u64, Felt)>)
        requires
            self.wf(),
        ensures
            r@.len() == self@.dom().len(),
            unique_keys(r@),
            forall|i: int|
                0 <= i < r@.len() ==> self@.dom().contains((#[trigger] r@[i]).0) && self@[r@[i].0]
                    == r@[i].1,
            forall|k: u64| #[trigger] self@.dom().contains(k) ==> exists|i: int|
                0 <= i < r@.len() && (#[trigger] r@[i]).0 == k,
    {
        proof {
            lemma_map_of_card(self.entries@);
            assert forall|i: int| 0 <= i < self.entries@.len() implies self@.dom().contains(
                (#[trigger] self.entries@[i]).0,
            ) && self@[self.entries@[i].0] == self.entries@[i].1 by {
                lemma_map_of_index(self.entries@, i);
            }
            assert forall|k: u64| #[trigger] self@.dom().contains(k) implies exists|i: int|
                0 <= i < self.entries@.len() && (#[trigger] self.entries@[i]).0 == k by {
                lemma_map_of_domain(self.entries@, k);
            }
        }
        let n = self.entries.len();
        let mut out: Vec<(u64, Felt)> = Vec::new();
        let mut i: usize = 0;
        while i < n
            invariant
                n == self.entries@.len(),
                0 <= i <= n,
                out@ =~= self.entries@.take(i as int),
            decreases n - i,
        {
            out.push(self.entries[i]);
            proof {
                assert(out@ =~= self.entries@.take(i + 1));
            }
            i += 1;
        }
        proof {
            assert(out@ =~= self.entries@);
        }
        out
    }

    /// Looks a key up in the mapping.
    pub fn get(&self, k: u64) -> (r: Option<Felt>)
        requires
            self.wf(),
        ensures
            match r {
                Some(v) => self@.dom().contains(k) && self@[k] == v,
                None => !self@.dom().contains(k),
            },
    {
        let n = self.entries.len();
        let mut i: usize = 0;
        while i < n
            invariant
                self.wf(),
                n == self.entries@.len(),
                0 <= i <= n,
                forall|j: int| 0 <= j < i ==> (#[trigger] self.entries@[j]).0 != k,
            decreases n - i,
        {
            if self.entries[i].0 == k {
                proof {
                    lemma_map_of_index(self.entries@, i as int);
                }
                return Some(self.entries[i].1);
            }
            i += 1;
        }
        proof {
            lemma_map_of_domain(self.entries@, k);
        }
        None
    }

    /// Inserts or replaces the value at a key, returning the value it
    /// replaced, if any.
    pub fn insert(&mut self, k: u64, v: Felt) -> (prev: Option<Felt>)
        requires
            old(self).wf(),
            v.valid(),
        ensures
            final(self).wf(),
            final(self)@ == old(self)@.insert(k, v),
            match prev {
                Some(p) => old(self)@.dom().contains(k) && old(self)@[k] == p,
                None => !old(self)@.dom().contains(k),
            },
    {
        let n = self.entries.len();
        let mut i: usize = 0;
        while i < n
            invariant
                self.wf(),
                v.valid(),
                *self == *old(self),
                n == self.entries@.len(),
                0 <= i <= n,
                forall|j: int| 0 <= j < i ==> (#[trigger] self.entries@[j]).0 != k,
            decreases n - i,
        {
            if self.entries[i].0 == k {
                proof {
                    lemma_map_of_index(self.entries@, i as int);
                    lemma_map_of_update(self.entries@, i as int, v);
                }
                let prev = self.entries[i].1;
                self.entries.set(i, (k, v));
                return Some(prev);
            }
            i += 1;
        }
        proof {
            lemma_map_of_domain(self.entries@, k);
            assert(self.entries@.push((k, v)).drop_last() =~= self.entries@);
        }
        self.entries.push((k, v));
        None
    }
}

/// A handle into the access log, returned by every read and write; used
/// later to look auxiliary proof data up for that specific access.
#[derive(Clone, Copy, Debug, PartialEq, Eq, Structural)]
pub struct RecordId(pub usize);

/// One entry of the append-only access log.
#[derive(Clone, Debug)]
pub enum MemoryLogEntry {
    Read { address_space: u32, pointer: u32, len: usize },
    Write { address_space: u32, pointer: u32, data: Vec<Felt> },
    IncrementTimestampBy(u32),
}

/// The reserved timestamp below every logged access; fresh memories start
/// one above it.
pub const INITIAL_TIMESTAMP: u32 = 0;

/// Whether a log entry is the `Write` entry with the given fields.
pub open spec fn is_write_entry(e: MemoryLogEntry, s: u32, p: u32, values: Seq<Felt>) -> bool {
    &&& e matches MemoryLogEntry::Write { address_space, pointer, data }
    &&& address_space == s
    &&& pointer == p
    &&& data@ == values
}

/// How far one log entry advances the timestamp: accesses advance it by
/// one, explicit increments by their amount.
pub open spec fn entry_delta(e: MemoryLogEntry) -> int {
    match e {
        MemoryLogEntry::Read { .. } => 1,
        MemoryLogEntry::Write { .. } => 1,
        MemoryLogEntry::IncrementTimestampBy(amount) => amount as int,
    }
}

/// The total timestamp advance recorded by a log.
pub open spec fn log_delta(log: Seq<MemoryLogEntry>) -> int
    decreases log.len(),
{
    if log.len() == 0 {
        0
    } else {
        log_delta(log.drop_last()) + entry_delta(log.last())
    }
}

/// Whether a length is a power of two.
pub open spec fn is_power_of_two(n: nat) -> bool
    decreases n,
{
    if n == 0 {
        false
    } else if n == 1 {
        true
    } else {
        n % 2 == 0 && is_power_of_two(n / 2)
    }
}

/// Checks whether a length is a power of two.
pub fn power_of_two(n: usize) -> (r: bool)
    ensures
        r == is_power_of_two(n as nat),
{
    if n == 0 {
        return false;
    }
    let mut m: usize = n;
    while m > 1 && m % 2 == 0
        invariant
            m >= 1,
            is_power_of_two(n as nat) == is_power_of_two(m as nat),
        decreases m,
    {
        m = m / 2;
    }
    m == 1
}

/// The value a cell holds in a mapping, with absent cells reading as zero.
pub open spec fn cell_spec(m: Map<u64, Felt>, address_space: u32, pointer: int) -> Felt {
    if m.dom().contains(key_spec(address_space, pointer)) {
        m[key_spec(address_space, pointer)]
    } else {
        Felt { value: 0 }
    }
}

/// The `len` consecutive cells starting at `(address_space, pointer)`.
pub open spec fn window_spec(m: Map<u64, Felt>, address_space: u32, pointer: int, len: nat) -> Seq<
    Felt,
> {
    Seq::new(len, |i: int| cell_spec(m, address_space, pointer + i))
}

/// The mapping after writing `values` to the consecutive cells starting at
/// `(address_space, pointer)`.
pub open spec fn write_window_spec(
    m: Map<u64, Felt>,
    address_space: u32,
    pointer: int,
    values: Seq<Felt>,
) -> Map<u64, Felt>
    decreases values.len(),
{
    if values.len() == 0 {
        m
    } else {
        write_window_spec(m, address_space, pointer, values.drop_last()).insert(
            key_spec(address_space, pointer + values.len() - 1),
            values.last(),
        )
    }
}

/// Writing a window leaves every cell outside it untouched.
pub proof fn lemma_write_window_frame(
    m: Map<u64, Felt>,
    address_space: u32,
    pointer: int,
    values: Seq<Felt>,
    s2: u32,
    p2: int,
)
    requires
        0 <= pointer,
        pointer + values.len() <= 0x1_0000_0000,
        0 <= p2 < 0x1_0000_0000,
        s2 != address_space || p2 < pointer || p2 >= pointer + values.len(),
    ensures
        cell_spec(write_window_spec(m, address_space, pointer, values), s2, p2) == cell_spec(
            m,
            s2,
            p2,
        ),
    decreases values.len(),
{
    if values.len() > 0 {
        lemma_write_window_frame(m, address_space, pointer, values.drop_last(), s2, p2);
        lemma_key_injective(address_space, pointer + values.len() - 1, s2, p2);
    }
}

/// Reading a just-written window back returns exactly the written values
/// (read-after-write consistency at the level of the memory mapping).
pub proof fn lemma_read_after_write(
    m: Map<u64, Felt>,
    address_space: u32,
    pointer: int,
    values: Seq<Felt>,
)
    requires
        0 <= pointer,
        pointer + values.len() <= 0x1_0000_0000,
    ensures
        window_spec(
            write_window_spec(m, address_space, pointer, values),
            address_space,
            pointer,
            values.len(),
        ) =~= values,
    decreases values.len(),
{
    if values.len() > 0 {
        let prefix = values.drop_last();
        lemma_read_after_write(m, address_space, pointer, prefix);
        let written = write_window_spec(m, address_space, pointer, values);
        assert forall|i: int| 0 <= i < values.len() implies cell_spec(
            written,
            address_space,
            pointer + i,
        ) == values[i] by {
            lemma_key_injective(address_space, pointer + values.len() - 1, address_space, pointer + i);
            if i < values.len() - 1 {
                assert(cell_spec(
                    write_window_spec(m, address_space, pointer, prefix),
                    address_space,
                    pointer + i,
                ) == prefix[i]);
            }
        }
    }
}

/// A window of cells that nothing ever wrote reads as all zeroes
/// (the additive identity).
pub proof fn lemma_unwritten_reads_zero(address_space: u32, pointer: int, len: nat)
    ensures
        window_spec(Map::<u64, Felt>::empty(), address_space, pointer, len) =~= Seq::new(
            len,
            |i: int| Felt { value: 0 },
        ),
{
}

/// Copies a vector of field elements.
pub(crate) fn copy_felt_vec(v: &Vec<Felt>) -> (r: Vec<Felt>)
    ensures
        r@ =~= v@,
{
    let n = v.len();
    let mut out: Vec<Felt> = Vec::new();
    let mut i: usize = 0;
    while i < n
        invariant
            n == v@.len(),
            0 <= i <= n,
            out@ =~= v@.take(i as int),
        decreases n - i,
    {
        out.push(v[i]);
        proof {
            assert(out@ =~= v@.take(i + 1));
        }
        i += 1;
    }
    out
}

/// Addressable memory with an access log.
///
/// Owns a sparse image of cells, a monotonically increasing timestamp, and
/// the ordered log of accesses. The timestamp always equals the initial
/// value plus one, plus the total advance recorded in the log.
#[derive(Clone, Debug)]
pub struct Memory {
    data: MemoryImage,
    log: Vec<MemoryLogEntry>,
    timestamp: u32,
}

impl Memory {
    /// The mapping of cells this memory currently holds.
    pub closed spec fn data_map(&self) -> Map<u64, Felt> {
        self.data@
    }

    /// The access log so far.
    pub closed spec fn log_seq(&self) -> Seq<MemoryLogEntry> {
        self.log@
    }

    /// The current timestamp.
    pub closed spec fn timestamp_spec(&self) -> u32 {
        self.timestamp
    }

    /// Internal consistency: the image is well formed and the timestamp
    /// equals the initial value plus one plus the logged advances.
    pub closed spec fn inv(&self) -> bool {
        &&& self.data.wf()
        &&& self.data.values_valid()
        &&& self.timestamp as int == INITIAL_TIMESTAMP + 1 + log_delta(self.log@)
    }

    /// A fresh memory: empty image, empty log, timestamp one above the
    /// reserved initial value.
    pub fn new() -> (r: Memory)
        ensures
            r.inv(),
            r.data_map() == Map::<u64, Felt>::empty(),
            r.log_seq() == Seq::<MemoryLogEntry>::empty(),
            r.timestamp_spec() == INITIAL_TIMESTAMP + 1,
    {
        Memory { data: MemoryImage::new(), log: Vec::new(), timestamp: INITIAL_TIMESTAMP + 1 }
    }

    /// A memory whose cells start from an existing image, with a fresh log
    /// and a reset timestamp.
    pub fn from_image(image: MemoryImage) -> (r: Memory)
        requires
            image.wf(),
            image.values_valid(),
        ensures
            r.inv(),
            r.data_map() == image@,
            r.log_seq() == Seq::<MemoryLogEntry>::empty(),
            r.timestamp_spec() == INITIAL_TIMESTAMP + 1,
    {
        Memory { data: image, log: Vec::new(), timestamp: INITIAL_TIMESTAMP + 1 }
    }

    /// The current timestamp.
    pub fn timestamp(&self) -> (r: u32)
        ensures
            r == self.timestamp_spec(),
    {
        self.timestamp
    }

    /// The number of log entries so far.
    pub fn log_len(&self) -> (r: usize)
        ensures
            r == self.log_seq().len(),
    {
        self.log.len()
    }

    /// The log entries so far, in order.
    pub fn log(&self) -> (r: &Vec<MemoryLogEntry>)
        ensures
            r@ == self.log_seq(),
    {
        &self.log
    }

    /// Surrenders the final image of the memory, discarding the log.
    pub fn into_image(self) -> (r: MemoryImage)
        requires
            self.inv(),
        ensures
            r.wf(),
            r.values_valid(),
            r@ == self.data_map(),
    {
        self.data
    }

    /// Pure lookup of one cell, with no log entry and no timestamp change;
    /// absent cells read as zero.
    pub fn get(&self, address_space: u32, pointer: u32) -> (r: Felt)
        requires
            self.inv(),
        ensures
            r == cell_spec(self.data_map(), address_space, pointer as int),
            r.valid(),
    {
        match self.data.get(address_key(address_space, pointer)) {
            Some(v) => v,
            None => Felt::zero(),
        }
    }

    /// The `len` consecutive cells starting at the given address.
    fn range_vec(&self, address_space: u32, pointer: u32, len: usize) -> (r: Vec<Felt>)
        requires
            self.inv(),
            pointer + len <= 0x1_0000_0000,
        ensures
            r@ =~= window_spec(self.data_map(), address_space, pointer as int, len as nat),
    {
        let mut out: Vec<Felt> = Vec::new();
        let mut i: usize = 0;
        while i < len
            invariant
                self.inv(),
                pointer + len <= 0x1_0000_0000,
                0 <= i <= len,
                out@.len() == i,
                forall|j: int|
                    0 <= j < i ==> out@[j] == cell_spec(
                        self.data_map(),
                        address_space,
                        pointer + j,
                    ),
            decreases len - i,
        {
            out.push(self.get(address_space, pointer + (i as u32)));
            i += 1;
        }
        out
    }

    /// Writes consecutive values starting at the given address, returning
    /// the log handle for the access and the previous contents of the
    /// window (zero-filled where never written).
    ///
    /// The length must be a power of two; appends exactly one `Write` log
    /// entry and advances the timestamp by exactly one.
    pub fn write(&mut self, address_space: u32, pointer: u32, values: &Vec<Felt>) -> (r: (
        RecordId,
        Vec<Felt>,
    ))
        requires
            old(self).inv(),
            is_power_of_two(values@.len() as nat),
            pointer + values@.len() <= 0x1_0000_0000,
            old(self).timestamp_spec() < 0xffff_ffff,
            forall|i: int| 0 <= i < values@.len() ==> (#[trigger] values@[i]).valid(),
        ensures
            final(self).inv(),
            final(self).data_map() == write_window_spec(
                old(self).data_map(),
                address_space,
                pointer as int,
                values@,
            ),
            r.1@ =~= window_spec(
                old(self).data_map(),
                address_space,
                pointer as int,
                values@.len() as nat,
            ),
            final(self).log_seq().len() == old(self).log_seq().len() + 1,
            final(self).log_seq().drop_last() =~= old(self).log_seq(),
            is_write_entry(final(self).log_seq().last(), address_space, pointer, values@),
            final(self).timestamp_spec() == old(self).timestamp_spec() + 1,
            r.0 == RecordId(old(self).log_seq().len() as usize),
    {
        let len = values.len();
        let mut prev: Vec<Felt> = Vec::new();
        let mut i: usize = 0;
        while i < len
            invariant
                self.data.wf(),
                self.data.values_valid(),
                self.log == old(self).log,
                self.timestamp == old(self).timestamp,
                len == values@.len(),
                pointer + len <= 0x1_0000_0000,
                forall|j: int| 0 <= j < len ==> (#[trigger] values@[j]).valid(),
                0 <= i <= len,
                prev@.len() == i,
                self.data@ == write_window_spec(
                    old(self).data_map(),
                    address_space,
                    pointer as int,
                    values@.take(i as int),
                ),
                forall|j: int|
                    0 <= j < i ==> prev@[j] == cell_spec(
                        old(self).data_map(),
                        address_space,
                        pointer + j,
                    ),
            decreases len - i,
        {
            let p = match self.data.insert(address_key(address_space, pointer + (i as u32)), values[i]) {
                Some(v) => v,
                None => Felt::zero(),
            };
            proof {
                lemma_write_window_frame(
                    old(self).data_map(),
                    address_space,
                    pointer as int,
                    values@.take(i as int),
                    address_space,
                    pointer + i,
                );
                assert(values@.take(i + 1).drop_last() =~= values@.take(i as int));
            }
            prev.push(p);
            i += 1;
        }
        proof {
            assert(values@.take(len as int) =~= values@);
        }
        let id = RecordId(self.log.len());
        let data_copy = copy_felt_vec(values);
        self.log.push(MemoryLogEntry::Write { address_space, pointer, data: data_copy });
        self.timestamp = self.timestamp + 1;
        proof {
            assert(self.log@.drop_last() =~= old(self).log@);
            assert(entry_delta(self.log@.last()) == 1);
        }
        (id, prev)
    }

    /// Reads consecutive values starting at the given address, returning
    /// the log handle for the access and the values.
    ///
    /// The length must be a power of two. Address space 0 holds immediate
    /// values: a read there must have length 1 and returns the field
    /// encoding of the pointer itself, whatever was ever stored. Appends
    /// exactly one `Read` log entry and advances the timestamp by exactly
    /// one; the cells themselves do not change.
    pub fn read(&mut self, address_space: u32, pointer: u32, len: usize) -> (r: (
        RecordId,
        Vec<Felt>,
    ))
        requires
            old(self).inv(),
            is_power_of_two(len as nat),
            address_space == 0 ==> len == 1,
            pointer + len <= 0x1_0000_0000,
            old(self).timestamp_spec() < 0xffff_ffff,
        ensures
            final(self).inv(),
            final(self).data_map() == old(self).data_map(),
            final(self).log_seq() =~= old(self).log_seq().push(
                MemoryLogEntry::Read { address_space, pointer, len },
            ),
            final(self).timestamp_spec() == old(self).timestamp_spec() + 1,
            r.0 == RecordId(old(self).log_seq().len() as usize),
            r.1@.len() == len,
            address_space == 0 ==> r.1@ =~= seq![Felt { value: (pointer % crate::field::MODULUS) as u32 }],
            address_space != 0 ==> r.1@ =~= window_spec(
                old(self).data_map(),
                address_space,
                pointer as int,
                len as nat,
            ),
    {
        let values = if address_space == 0 {
            let mut v: Vec<Felt> = Vec::new();
            v.push(Felt::from_u32(pointer));
            v
        } else {
            self.range_vec(address_space, pointer, len)
        };
        proof {
            assert(self.log@.push(MemoryLogEntry::Read { address_space, pointer, len }).drop_last()
                =~= self.log@);
        }
        let id = RecordId(self.log.len());
        self.log.push(MemoryLogEntry::Read { address_space, pointer, len });
        self.timestamp = self.timestamp + 1;
        (id, values)
    }

    /// Advances the timestamp without a memory access, appending the
    /// explicit increment entry the offline checker reconciles later.
    pub fn increment_timestamp_by(&mut self, amount: u32) -> (r: ())
        requires
            old(self).inv(),
            old(self).timestamp_spec() + amount <= 0xffff_ffff,
        ensures
            final(self).inv(),
            final(self).data_map() == old(self).data_map(),
            final(self).log_seq() =~= old(self).log_seq().push(
                MemoryLogEntry::IncrementTimestampBy(amount),
            ),
            final(self).timestamp_spec() == old(self).timestamp_spec() + amount,
    {
        proof {
            assert(self.log@.push(MemoryLogEntry::IncrementTimestampBy(amount)).drop_last()
                =~= self.log@);
        }
        self.timestamp = self.timestamp + amount;
        self.log.push(MemoryLogEntry::IncrementTimestampBy(amount));
    }

    /// Like `write`, except that a window whose length is not a power of
    /// two, or does not fit the address space, is rejected with `None` and
    /// leaves the memory untouched.
    pub fn try_write(&mut self, address_space: u32, pointer: u32, values: &Vec<Felt>) -> (r:
        Option<(RecordId, Vec<Felt>)>)
        requires
            old(self).inv(),
            old(self).timestamp_spec() < 0xffff_ffff,
            forall|i: int| 0 <= i < values@.len() ==> (#[trigger] values@[i]).valid(),
        ensures
            final(self).inv(),
            r is None <==> (!is_power_of_two(values@.len() as nat) || pointer + values@.len()
                > 0x1_0000_0000),
            r is None ==> *final(self) == *old(self),
            r is Some ==> final(self).data_map() == write_window_spec(
                old(self).data_map(),
                address_space,
                pointer as int,
                values@,
            ) && final(self).timestamp_spec() == old(self).timestamp_spec() + 1
                && final(self).log_seq().len() == old(self).log_seq().len() + 1
                && final(self).log_seq().drop_last() =~= old(self).log_seq() && is_write_entry(
                final(self).log_seq().last(),
                address_space,
                pointer,
                values@,
            ) && r->Some_0.0 == RecordId(old(self).log_seq().len() as usize)
                && r->Some_0.1@ =~= window_spec(
                old(self).data_map(),
                address_space,
                pointer as int,
                values@.len() as nat,
            ),
    {
        if !power_of_two(values.len()) {
            return None;
        }
        if !(values.len() as u64 <= 0x1_0000_0000u64 - pointer as u64) {
            return None;
        }
        Some(self.write(address_space, pointer, values))
    }

    /// Like `read`, except that a length that is not a power of two, a
    /// batched read from address space 0, or a window that does not fit
    /// the address space is rejected with `None` and leaves the memory
    /// untouched.
    pub fn try_read(&mut self, address_space: u32, pointer: u32, len: usize) -> (r: Option<(
        RecordId,
        Vec<Felt>,
    )>)
        requires
            old(self).inv(),
            old(self).timestamp_spec() < 0xffff_ffff,
        ensures
            final(self).inv(),
            r is None <==> (!is_power_of_two(len as nat) || (address_space == 0 && len != 1)
                || pointer + len > 0x1_0000_0000),
            r is None ==> *final(self) == *old(self),
            r is Some ==> final(self).data_map() == old(self).data_map()
                && final(self).timestamp_spec() == old(self).timestamp_spec() + 1
                && final(self).log_seq() =~= old(self).log_seq().push(
                MemoryLogEntry::Read { address_space, pointer, len },
            ) && r->Some_0.0 == RecordId(old(self).log_seq().len() as usize)
                && r->Some_0.1@.len() == len && (address_space == 0 ==> r->Some_0.1@ =~= seq![
                Felt { value: (pointer % crate::field::MODULUS) as u32 },
            ]) && (address_space != 0 ==> r->Some_0.1@ =~= window_spec(
                old(self).data_map(),
                address_space,
                pointer as int,
                len as nat,
            )),
    {
        if !power_of_two(len) {
            return None;
        }
        if address_space == 0 && len != 1 {
            return None;
        }
        if !(len as u64 <= 0x1_0000_0000u64 - pointer as u64) {
            return None;
        }
        Some(self.read(address_space, pointer, len))
    }
}

/// The timestamp tracks the log exactly: it always equals the initial
/// value plus one, plus the advances the log records — one per read or
/// write, the stated amount per explicit increment. So after `k` reads
/// and writes the timestamp is the starting value plus `k`, and an
/// explicit increment by `d` moves it by exactly `d` with exactly one
/// more log entry.
pub proof fn lemma_timestamp_tracks_log(m: &Memory)
    requires
        m.inv(),
    ensures
        m.timestamp_spec() as int == INITIAL_TIMESTAMP + 1 + log_delta(m.log_seq()),
{
}

/// With unique keys, the mapping has exactly one element per entry.
pub proof fn lemma_map_of_card<V>(entries: Seq<(u64, V)>)
    requires
        unique_keys(entries),
    ensures
        map_of(entries).dom().finite(),
        map_of(entries).dom().len() == entries.len(),
    decreases entries.len(),
{
    if entries.len() > 0 {
        lemma_map_of_card(entries.drop_last());
        lemma_map_of_domain(entries.drop_last(), entries.last().0);
    }
}

} // verus!
