//! The bounded history of recent samples.
//!
//! A buffer of capacity `C` holds the latest `C` samples that were stored in
//! it, oldest first. Storing into a full buffer overwrites the oldest sample.

use crate::entry::{PingEntry, Sample};
use crate::json::{array_json, array_json_text};
use vstd::arithmetic::div_mod::{lemma_mod_sub_multiples_vanish, lemma_small_mod};
use vstd::prelude::*;

verus! {

/// Number of slots of the buffer that `PingBuffer::empty` makes.
pub const DEFAULT_CAPACITY: usize = 120;

/// The last `count` items of `items`, or all of them where there are fewer.
pub open spec fn latest(items: Seq<Sample>, count: nat) -> Seq<Sample> {
    if items.len() <= count {
        items
    } else {
        items.skip(items.len() - count)
    }
}

/// The samples of a sequence of entries, in the same order.
pub open spec fn samples(entries: Seq<PingEntry>) -> Seq<Sample> {
    entries.map_values(|entry: PingEntry| entry@)
}

/// The mathematical value of a buffer: its number of slots and the samples
/// it holds, oldest first.
#[verifier::ext_equal]
pub struct History {
    /// The number of slots.
    pub capacity: nat,
    /// The samples held, oldest first.
    pub held: Seq<Sample>,
}

impl History {
    /// The history without samples.
    pub open spec fn empty(capacity: nat) -> History {
        History { capacity, held: Seq::empty() }
    }

    /// A history never holds more samples than it has slots.
    pub open spec fn valid(self) -> bool {
        self.held.len() <= self.capacity
    }

    /// Whether every slot is taken.
    pub open spec fn full(self) -> bool {
        self.held.len() >= self.capacity
    }

    /// The history after `sample` was stored as the newest: of the samples
    /// held and the new one, the latest as many as there are slots.
    pub open spec fn store(self, sample: Sample) -> History {
        History { capacity: self.capacity, held: latest(self.held.push(sample), self.capacity) }
    }

    /// The history after each of `stored` was stored, first to last.
    pub open spec fn store_all(self, stored: Seq<Sample>) -> History
        decreases stored.len(),
    {
        if stored.len() == 0 {
            self
        } else {
            self.store_all(stored.drop_last()).store(stored.last())
        }
    }

    /// What an export hands out: everything held, oldest first.
    pub open spec fn exported(self) -> Seq<Sample> {
        self.held
    }

    /// The history that an export leaves behind: the same slots, all free.
    pub open spec fn cleared(self) -> History {
        History::empty(self.capacity)
    }
}

/// A ring of recent entries. Its view says how many slots it has and which
/// samples it holds, oldest first.
pub struct PingBuffer {
    /// The slots that were filled so far; never more than `capacity`.
    data: Vec<PingEntry>,
    /// The slot of the oldest entry; zero until the ring is full.
    index_start: usize,
    /// The number of slots.
    capacity: usize,
}

impl View for PingBuffer {
    type V = History;

    closed spec fn view(&self) -> History {
        History {
            capacity: self.capacity as nat,
            held: Seq::new(
                self.data@.len(),
                |i: int| self.data@[(self.index_start + i) % (self.data@.len() as int)]@,
            ),
        }
    }
}

impl PingBuffer {
    #[verifier::type_invariant]
    spec fn well_formed(self) -> bool {
        &&& self.data@.len() <= self.capacity
        &&& self.index_start == 0 || self.index_start < self.data@.len()
        &&& self.data@.len() < self.capacity ==> self.index_start == 0
    }

    /// An empty buffer of `DEFAULT_CAPACITY` slots.
    pub fn empty() -> (buffer: PingBuffer)
        ensures
            buffer@ == History::empty(DEFAULT_CAPACITY as nat),
    {
        PingBuffer {
            data: Vec::with_capacity(DEFAULT_CAPACITY),
            index_start: 0,
            capacity: DEFAULT_CAPACITY,
        }
    }

    /// An empty buffer of `capacity` slots. Slots take up memory only once
    /// they are filled. A buffer without slots stays empty.
    pub fn with_capacity(capacity: usize) -> (buffer: PingBuffer)
        ensures
            buffer@ == History::empty(capacity as nat),
    {
        PingBuffer { data: Vec::new(), index_start: 0, capacity }
    }

    /// The number of slots.
    pub fn capacity(&self) -> (capacity: usize)
        ensures
            capacity == self@.capacity,
    {
        self.capacity
    }

    /// The number of entries held; never more than the capacity.
    pub fn len(&self) -> (len: usize)
        ensures
            len == self@.held.len(),
            self@.valid(),
    {
        proof {
            use_type_invariant(self);
        }
        self.data.len()
    }

    /// Stores `entry` as the newest. A full buffer gives up its oldest entry
    /// for it.
    pub fn store_entry(&mut self, entry: PingEntry)
        ensures
            final(self)@ == old(self)@.store(entry@),
    {
        proof {
            use_type_invariant(&*self);
        }
        if self.capacity == 0 {
            assert(self@ =~= old(self)@.store(entry@));
            return ;
        }
        let oldest = self.index_start;
        let mut data: Vec<PingEntry> = Vec::new();
        self.index_start = 0;
        std::mem::swap(&mut data, &mut self.data);
        let filled = data.len();
        if filled < self.capacity {
            data.push(entry);
            self.data = data;
            assert(self@ =~= old(self)@.store(entry@)) by {
                assert forall|i: int| 0 <= i <= filled implies self@.held[i] == old(
                    self,
                )@.held.push(entry@)[i] by {
                    lemma_ring_slot(0, i, filled + 1);
                    if i < filled {
                        lemma_ring_slot(0, i, filled as int);
                    }
                }
            }
        } else {
            let next = if oldest + 1 == filled {
                0
            } else {
                oldest + 1
            };
            data.set(oldest, entry);
            self.data = data;
            self.index_start = next;
            assert(self@ =~= old(self)@.store(entry@)) by {
                assert forall|i: int| 0 <= i < filled implies self@.held[i] == old(
                    self,
                )@.held.push(entry@).skip(1)[i] by {
                    lemma_ring_slot(next as int, i, filled as int);
                    if i + 1 < filled {
                        lemma_ring_slot(oldest as int, i + 1, filled as int);
                    }
                }
            }
        }
    }

    /// Hands out everything the buffer holds, oldest first, and leaves the
    /// buffer empty, in one step.
    pub fn export_and_clear(&mut self) -> (exported: Vec<PingEntry>)
        ensures
            samples(exported@) == old(self)@.exported(),
            final(self)@ == old(self)@.cleared(),
    {
        proof {
            use_type_invariant(&*self);
        }
        let start = self.index_start;
        let mut data: Vec<PingEntry> = Vec::new();
        self.index_start = 0;
        std::mem::swap(&mut data, &mut self.data);
        let filled = data.len();
        let mut exported: Vec<PingEntry> = Vec::with_capacity(filled);
        let mut slot = start;
        let mut i: usize = 0;
        proof {
            if 0 < filled {
                lemma_ring_slot(start as int, 0, filled as int);
            }
        }
        while i < filled
            invariant
                i <= filled == data@.len(),
                start < filled || start == 0,
                slot < filled || i == filled,
                i < filled ==> slot == (start + i) % (filled as int),
                exported@.len() == i,
                forall|k: int|
                    0 <= k < i ==> exported@[k] == data@[(start + k) % (filled as int)],
            decreases filled - i,
        {
            exported.push(data[slot]);
            proof {
                if i + 1 < filled {
                    lemma_ring_slot(start as int, i as int, filled as int);
                    lemma_ring_slot(start as int, i + 1, filled as int);
                }
            }
            slot = if slot + 1 == filled {
                0
            } else {
                slot + 1
            };
            i = i + 1;
        }
        assert(samples(exported@) =~= old(self)@.held);
        assert(self@ =~= old(self)@.cleared());
        exported
    }

    /// Hands out everything the buffer holds as one JSON array, oldest
    /// sample first, and leaves the buffer empty.
    pub fn send_json(&mut self) -> (json: String)
        ensures
            json@ == array_json_text(old(self)@.exported()),
            final(self)@ == old(self)@.cleared(),
    {
        let exported = self.export_and_clear();
        array_json(&exported)
    }
}

/// In a ring of `n` slots that starts at slot `start`, position `i` is the
/// slot `start + i`, counted round the ring.
proof fn lemma_ring_slot(start: int, i: int, n: int)
    requires
        0 <= start < n,
        0 <= i < n,
    ensures
        (start + i) % n == if start + i < n {
            start + i
        } else {
            start + i - n
        },
{
    if start + i < n {
        lemma_small_mod((start + i) as nat, n as nat);
    } else {
        lemma_mod_sub_multiples_vanish(start + i, n);
        lemma_small_mod((start + i - n) as nat, n as nat);
    }
}

} // verus!
