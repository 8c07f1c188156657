//! What one tick of the sampling loop leads to.
//!
//! The surrounding program owns the clock, the probe, the log file and the
//! channel to its subscribers. What a probe result means for each of them is
//! decided here.

use crate::buffer::{History, PingBuffer};
use crate::entry::{PingEntry, Sample};
use crate::logline::{format_line, log_line_text};
use crate::timestamp::{Instant, Timestamp};
use vstd::prelude::*;

verus! {

/// The address that every probe is sent to.
pub const DESTINATION: &'static str = "2a00:1450:4001:829::2003";

/// The name of the log file, relative to the working directory.
pub const LOG_FILE: &'static str = "pinglog.txt";

/// The name of the event under which each sample is published.
pub const PING_EVENT: &'static str = "ping";

/// Why a probe gave no latency. Whatever the reason, the tick is skipped and
/// the loop goes on.
#[derive(Clone, Copy, Debug, PartialEq, Eq)]
pub enum ProbeError {
    /// The destination, its network or the protocol on it cannot be reached,
    /// or gave no answer in time.
    Unreachable,
    /// The right to open the probing transport was refused.
    PermissionDenied,
    /// The probing transport could not be set up.
    TransportInit,
    /// Any other failure of the transport, with its status code.
    Other(u32),
}

/// What came of one tick.
#[derive(Debug, PartialEq, Eq)]
pub enum TickOutcome {
    /// The probe succeeded and its entry was stored in the history. The
    /// program appends `line` to the log and then publishes `entry`; a
    /// failure of the first does not keep it from the second.
    Recorded { entry: PingEntry, line: String },
    /// The probe failed. Nothing was stored, and nothing is to be logged or
    /// published; `error` goes to the diagnostic stream.
    Skipped { error: ProbeError },
}

impl TickOutcome {
    /// The lines that this outcome asks to append to the log.
    pub open spec fn log_lines(self) -> Seq<Seq<char>> {
        match self {
            TickOutcome::Recorded { entry, line } => seq![line@],
            TickOutcome::Skipped { error } => Seq::empty(),
        }
    }

    /// The samples that this outcome asks to publish.
    pub open spec fn published(self) -> Seq<Sample> {
        match self {
            TickOutcome::Recorded { entry, line } => seq![entry@],
            TickOutcome::Skipped { error } => Seq::empty(),
        }
    }
}

/// One tick as the loop saw it: the instant read before the probe, and what
/// the probe returned.
pub struct Tick {
    /// The instant read before the probe began.
    pub time: Instant,
    /// What the probe returned.
    pub probe: Result<u32, ProbeError>,
}

/// Everything the ticks of a run have led to.
#[verifier::ext_equal]
pub struct Ledger {
    /// The history of recent samples.
    pub history: History,
    /// The lines appended to the log, in order.
    pub log: Seq<Seq<char>>,
    /// The samples published, in order.
    pub published: Seq<Sample>,
}

impl Ledger {
    /// The ledger of a run that starts with `history` and has logged and
    /// published nothing yet.
    pub open spec fn fresh(history: History) -> Ledger {
        Ledger { history, log: Seq::empty(), published: Seq::empty() }
    }
}

/// The ledger after one more tick was settled by `record_probe` and the
/// program did what the outcome asked.
pub open spec fn settle(ledger: Ledger, tick: Tick) -> Ledger {
    match tick.probe {
        Ok(ping) => {
            let sample = Sample { ping, time: tick.time };
            Ledger {
                history: ledger.history.store(sample),
                log: ledger.log.push(log_line_text(sample)),
                published: ledger.published.push(sample),
            }
        },
        Err(error) => ledger,
    }
}

/// Settles one tick: `time` was read before the probe began, `probe` is what
/// the probe returned. A latency becomes an entry, which is stored in
/// `history` and handed back with its log line. A failure changes nothing.
pub fn record_probe(
    history: &mut PingBuffer,
    time: Timestamp,
    probe: Result<u32, ProbeError>,
) -> (outcome: TickOutcome)
    ensures
        match probe {
            Ok(ping) => {
                let sample = Sample { ping, time: time@ };
                &&& final(history)@ == old(history)@.store(sample)
                &&& outcome matches TickOutcome::Recorded { entry, line }
                &&& entry@ == sample
                &&& line@ == log_line_text(sample)
            },
            Err(error) => {
                &&& final(history)@ == old(history)@
                &&& outcome == (TickOutcome::Skipped { error })
                &&& outcome.log_lines() == Seq::<Seq<char>>::empty()
                &&& outcome.published() == Seq::<Sample>::empty()
            },
        },
        settle(Ledger::fresh(old(history)@), Tick { time: time@, probe }) == (Ledger {
            history: final(history)@,
            log: outcome.log_lines(),
            published: outcome.published(),
        }),
{
    let ghost settled = settle(Ledger::fresh(old(history)@), Tick { time: time@, probe });
    match probe {
        Ok(ping) => {
            let entry = PingEntry::new(ping, time);
            history.store_entry(entry);
            let line = format_line(&entry);
            let outcome = TickOutcome::Recorded { entry, line };
            assert(settled =~= Ledger {
                history: history@,
                log: outcome.log_lines(),
                published: outcome.published(),
            });
            outcome
        },
        Err(error) => TickOutcome::Skipped { error },
    }
}

/// The ledger after each of `ticks` was settled, first to last.
pub open spec fn settle_all(ledger: Ledger, ticks: Seq<Tick>) -> Ledger
    decreases ticks.len(),
{
    if ticks.len() == 0 {
        ledger
    } else {
        settle(settle_all(ledger, ticks.drop_last()), ticks.last())
    }
}

/// The samples of the ticks whose probe succeeded, in order.
pub open spec fn successes(ticks: Seq<Tick>) -> Seq<Sample>
    decreases ticks.len(),
{
    if ticks.len() == 0 {
        Seq::empty()
    } else {
        match ticks.last().probe {
            Ok(ping) => successes(ticks.drop_last()).push(
                Sample { ping, time: ticks.last().time },
            ),
            Err(error) => successes(ticks.drop_last()),
        }
    }
}

/// A tick whose probe failed leaves no trace: the history, the log and what
/// was published are as before.
pub proof fn lemma_failed_tick_leaves_no_trace(ledger: Ledger, tick: Tick)
    requires
        tick.probe is Err,
    ensures
        settle(ledger, tick) == ledger,
{
}

/// Over any run of ticks, exactly the successful probes leave a trace, each
/// one line in the log and one published sample, in the order of the ticks,
/// and the history was stored into once for each of them.
pub proof fn lemma_run_records_successes(ledger: Ledger, ticks: Seq<Tick>)
    ensures
        settle_all(ledger, ticks).history == ledger.history.store_all(successes(ticks)),
        settle_all(ledger, ticks).log == ledger.log + successes(ticks).map_values(
            |sample: Sample| log_line_text(sample),
        ),
        settle_all(ledger, ticks).published == ledger.published + successes(ticks),
    decreases ticks.len(),
{
    let lines = |sample: Sample| log_line_text(sample);
    if ticks.len() == 0 {
        assert(ledger.log + successes(ticks).map_values(lines) =~= ledger.log);
        assert(ledger.published + successes(ticks) =~= ledger.published);
    } else {
        let before = ticks.drop_last();
        lemma_run_records_successes(ledger, before);
        match ticks.last().probe {
            Ok(ping) => {
                let sample = Sample { ping, time: ticks.last().time };
                assert(successes(ticks).drop_last() =~= successes(before));
                assert(ledger.log + successes(ticks).map_values(lines) =~= (ledger.log
                    + successes(before).map_values(lines)).push(log_line_text(sample)));
                assert(ledger.published + successes(ticks) =~= (ledger.published + successes(
                    before,
                )).push(sample));
            },
            Err(error) => {},
        }
    }
}

} // verus!
