//! The cadence of the sampling loop.
//!
//! The loop dispatches the work of one tick, sleeps for a fixed time and
//! starts over. It never waits for a tick to finish, and it ends only when
//! it finds itself cancelled at the top of a cycle.

use vstd::prelude::*;

verus! {

/// Milliseconds that the loop sleeps between two dispatches.
pub const TICK_MILLIS: u64 = 1000;

/// Where the loop stands.
#[derive(Clone, Copy, Debug, PartialEq, Eq)]
pub enum LoopState {
    /// At the top of a cycle, about to look at the cancellation signal.
    Idle,
    /// A tick was dispatched; its sleep is still to come.
    Dispatching,
    /// The loop was cancelled and has left.
    Stopped,
}

/// What the program does next.
#[derive(Clone, Copy, Debug, PartialEq, Eq)]
pub enum LoopAction {
    /// Start the work of one tick as a unit of its own, without waiting for
    /// it.
    Dispatch,
    /// Sleep for `millis` milliseconds.
    Sleep { millis: u64 },
    /// Leave the loop; ticks already dispatched run to their end.
    Exit,
}

/// The next state of the loop and the action that leads there. The
/// cancellation signal is looked at only at the top of a cycle: a dispatched
/// tick always gets its sleep.
pub open spec fn loop_step(state: LoopState, cancelled: bool) -> (LoopState, LoopAction) {
    match state {
        LoopState::Idle => if cancelled {
            (LoopState::Stopped, LoopAction::Exit)
        } else {
            (LoopState::Dispatching, LoopAction::Dispatch)
        },
        LoopState::Dispatching => (LoopState::Idle, LoopAction::Sleep { millis: TICK_MILLIS }),
        LoopState::Stopped => (LoopState::Stopped, LoopAction::Exit),
    }
}

/// Advances the loop by one step. `cancelled` says whether cancellation was
/// signalled by now.
pub fn next_step(state: LoopState, cancelled: bool) -> (step: (LoopState, LoopAction))
    ensures
        step == loop_step(state, cancelled),
{
    match state {
        LoopState::Idle => if cancelled {
            (LoopState::Stopped, LoopAction::Exit)
        } else {
            (LoopState::Dispatching, LoopAction::Dispatch)
        },
        LoopState::Dispatching => (LoopState::Idle, LoopAction::Sleep { millis: TICK_MILLIS }),
        LoopState::Stopped => (LoopState::Stopped, LoopAction::Exit),
    }
}

/// The actions of a loop that starts in `state` and finds the cancellation
/// signal as `signals` says, step by step.
pub open spec fn loop_actions(state: LoopState, signals: Seq<bool>) -> Seq<LoopAction>
    decreases signals.len(),
{
    if signals.len() == 0 {
        Seq::empty()
    } else {
        seq![loop_step(state, signals[0]).1] + loop_actions(
            loop_step(state, signals[0]).0,
            signals.drop_first(),
        )
    }
}

/// Whatever the cancellation signal does, the actions of the loop keep the
/// cadence: every dispatch is followed by a sleep of one tick before
/// anything else happens, every sleep follows a dispatch, and after an exit
/// comes nothing but exits.
pub proof fn lemma_loop_cadence(state: LoopState, signals: Seq<bool>)
    ensures
        loop_actions(state, signals).len() == signals.len(),
        signals.len() > 0 ==> loop_actions(state, signals)[0] == loop_step(state, signals[0]).1,
        forall|i: int|
            #![trigger loop_actions(state, signals)[i]]
            0 <= i && i + 1 < signals.len() ==> {
                let now = loop_actions(state, signals)[i];
                let next = loop_actions(state, signals)[i + 1];
                &&& now is Dispatch <==> next is Sleep
                &&& next is Sleep ==> next == (LoopAction::Sleep { millis: TICK_MILLIS })
                &&& now is Exit ==> next is Exit
            },
    decreases signals.len(),
{
    if signals.len() > 0 {
        let (after, first) = loop_step(state, signals[0]);
        let rest = signals.drop_first();
        lemma_loop_cadence(after, rest);
        let actions = loop_actions(state, signals);
        assert forall|i: int|
            #![trigger actions[i]]
            0 <= i && i + 1 < signals.len() implies {
            let now = actions[i];
            let next = actions[i + 1];
            &&& now is Dispatch <==> next is Sleep
            &&& next is Sleep ==> next == (LoopAction::Sleep { millis: TICK_MILLIS })
            &&& now is Exit ==> next is Exit
        } by {
            if i == 0 {
                assert(actions[1] == loop_actions(after, rest)[0]);
            } else {
                assert(actions[i] == loop_actions(after, rest)[i - 1]);
                assert(actions[i + 1] == loop_actions(after, rest)[i]);
            }
        }
    }
}

/// Once cancellation is signalled at the top of a cycle the loop has left
/// for good: it dispatches nothing more, whatever the signal does later.
pub proof fn lemma_cancelled_loop_stays_stopped(signals: Seq<bool>)
    ensures
        loop_actions(LoopState::Stopped, signals).len() == signals.len(),
        forall|i: int|
            0 <= i < signals.len() ==> #[trigger] loop_actions(LoopState::Stopped, signals)[i]
                == LoopAction::Exit,
        loop_step(LoopState::Idle, true) == (LoopState::Stopped, LoopAction::Exit),
    decreases signals.len(),
{
    if signals.len() > 0 {
        let rest = signals.drop_first();
        lemma_cancelled_loop_stays_stopped(rest);
        let actions = loop_actions(LoopState::Stopped, signals);
        assert forall|i: int| 0 <= i < signals.len() implies #[trigger] actions[i]
            == LoopAction::Exit by {
            if i > 0 {
                assert(actions[i] == loop_actions(LoopState::Stopped, rest)[i - 1]);
            }
        }
    }
}

} // verus!
