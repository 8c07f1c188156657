//! What holds of every run of stores and exports on a history.

use crate::buffer::{latest, History};
use crate::entry::Sample;
use vstd::prelude::*;

verus! {

/// One call on a buffer.
pub enum BufferOp {
    /// `store_entry` with this sample.
    Store(Sample),
    /// `export_and_clear`.
    Export,
}

/// The account of a run of calls: what the buffer holds at its end, what the
/// exports handed out, and how many samples had to go for newer ones.
#[verifier::ext_equal]
pub struct Account {
    /// The history after the last call.
    pub history: History,
    /// Everything that exports handed out, in the order it came.
    pub exported: Seq<Sample>,
    /// How many stores found the buffer full, so that a sample had to go.
    pub evicted: nat,
}

/// The account after one more call.
pub open spec fn step(account: Account, op: BufferOp) -> Account {
    match op {
        BufferOp::Store(sample) => Account {
            history: account.history.store(sample),
            exported: account.exported,
            evicted: if account.history.full() {
                account.evicted + 1
            } else {
                account.evicted
            },
        },
        BufferOp::Export => Account {
            history: account.history.cleared(),
            exported: account.exported + account.history.exported(),
            evicted: account.evicted,
        },
    }
}

/// The account of the calls `ops`, made in order on `start`.
pub open spec fn replay(start: History, ops: Seq<BufferOp>) -> Account
    decreases ops.len(),
{
    if ops.len() == 0 {
        Account { history: start, exported: Seq::empty(), evicted: 0 }
    } else {
        step(replay(start, ops.drop_last()), ops.last())
    }
}

/// The samples that the stores among `ops` brought in, in order.
pub open spec fn stored_by(ops: Seq<BufferOp>) -> Seq<Sample>
    decreases ops.len(),
{
    if ops.len() == 0 {
        Seq::empty()
    } else {
        match ops.last() {
            BufferOp::Store(sample) => stored_by(ops.drop_last()).push(sample),
            BufferOp::Export => stored_by(ops.drop_last()),
        }
    }
}

/// Storing keeps a history valid, and a valid history with a free slot grows
/// by exactly the new sample.
pub proof fn lemma_store(history: History, sample: Sample)
    requires
        history.valid(),
    ensures
        history.store(sample).valid(),
        history.store(sample).capacity == history.capacity,
        !history.full() ==> history.store(sample).held == history.held.push(sample),
        history.full() ==> history.store(sample).held.len() == history.capacity,
        history.full() && history.capacity > 0 ==> history.store(sample).held
            == history.held.drop_first().push(sample),
{
    if history.full() && history.capacity > 0 {
        assert(history.held.push(sample).skip(1) =~= history.held.drop_first().push(sample));
    }
}

/// After any number of stores a history holds the latest samples, as many as
/// it has slots, of those it held before and those that were stored.
pub proof fn lemma_store_all_keeps_latest(start: History, stored: Seq<Sample>)
    requires
        start.valid(),
    ensures
        start.store_all(stored).valid(),
        start.store_all(stored).capacity == start.capacity,
        start.store_all(stored).held == latest(start.held + stored, start.capacity),
    decreases stored.len(),
{
    if stored.len() == 0 {
        assert(start.held + stored =~= start.held);
    } else {
        let before = stored.drop_last();
        lemma_store_all_keeps_latest(start, before);
        let all = start.held + stored;
        assert(all =~= (start.held + before).push(stored.last()));
        assert(latest(latest(start.held + before, start.capacity).push(stored.last()), start.capacity)
            =~= latest(all, start.capacity));
    }
}

/// Of no more samples than it has slots, an empty buffer keeps every one: it
/// holds as many samples as were stored, and an export returns exactly those,
/// in the order in which they were stored.
pub proof fn lemma_fill_within_capacity(capacity: nat, stored: Seq<Sample>)
    requires
        stored.len() <= capacity,
    ensures
        History::empty(capacity).store_all(stored).held.len() == stored.len(),
        History::empty(capacity).store_all(stored).exported() == stored,
{
    lemma_store_all_keeps_latest(History::empty(capacity), stored);
    assert(History::empty(capacity).held + stored =~= stored);
}

/// Of more samples than it has slots, an empty buffer keeps the last ones:
/// it is full, and an export returns the latest samples, as many as there are
/// slots, in the order in which they were stored.
pub proof fn lemma_fill_beyond_capacity(capacity: nat, stored: Seq<Sample>)
    requires
        stored.len() > capacity,
    ensures
        History::empty(capacity).store_all(stored).held.len() == capacity,
        History::empty(capacity).store_all(stored).exported() == stored.skip(
            stored.len() - capacity,
        ),
{
    lemma_store_all_keeps_latest(History::empty(capacity), stored);
    assert(History::empty(capacity).held + stored =~= stored);
}

/// Two exports in a row: the first returns everything held, the second
/// returns nothing, and the buffer is left as the first one left it.
pub proof fn lemma_export_twice(history: History)
    ensures
        history.exported() == history.held,
        history.cleared().exported() == Seq::<Sample>::empty(),
        history.cleared().cleared() == history.cleared(),
{
}

/// However stores and exports follow one another on a buffer that starts
/// empty, every sample stored is accounted for exactly once: it was
/// exported, is still held, or had to go when a store found the buffer full.
/// Where no sample had to go, what was exported followed by what is held
/// is what was stored, in order.
pub proof fn lemma_replay_conserves(capacity: nat, ops: Seq<BufferOp>)
    ensures
        replay(History::empty(capacity), ops).history.valid(),
        replay(History::empty(capacity), ops).history.capacity == capacity,
        stored_by(ops).len() == replay(History::empty(capacity), ops).exported.len() + replay(
            History::empty(capacity),
            ops,
        ).history.held.len() + replay(History::empty(capacity), ops).evicted,
        replay(History::empty(capacity), ops).evicted == 0 ==> replay(
            History::empty(capacity),
            ops,
        ).exported + replay(History::empty(capacity), ops).history.held == stored_by(ops),
    decreases ops.len(),
{
    if ops.len() > 0 {
        let before = replay(History::empty(capacity), ops.drop_last());
        let after = replay(History::empty(capacity), ops);
        lemma_replay_conserves(capacity, ops.drop_last());
        match ops.last() {
            BufferOp::Store(sample) => {
                lemma_store(before.history, sample);
                if after.evicted == 0 {
                    assert(after.exported + after.history.held =~= (before.exported
                        + before.history.held).push(sample));
                }
            },
            BufferOp::Export => {
                if after.evicted == 0 {
                    assert(after.exported + after.history.held =~= before.exported
                        + before.history.held);
                }
            },
        }
    } else {
        assert(replay(History::empty(capacity), ops).exported + replay(
            History::empty(capacity),
            ops,
        ).history.held =~= stored_by(ops));
    }
}

} // verus!
