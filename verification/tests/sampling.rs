use ping_monitor::buffer::PingBuffer;
use ping_monitor::entry::PingEntry;
use ping_monitor::logline::parse_line;
use ping_monitor::cadence::{next_step, LoopAction, LoopState, TICK_MILLIS};
use ping_monitor::sampler::{
    record_probe, ProbeError, TickOutcome, DESTINATION, LOG_FILE, PING_EVENT,
};
use ping_monitor::timestamp::Timestamp;

fn second(n: i64) -> Timestamp {
    Timestamp::new(1_704_067_200 + n, 0).unwrap()
}

#[test]
fn fixed_names() {
    assert_eq!(TICK_MILLIS, 1000);
    assert_eq!(DESTINATION, "2a00:1450:4001:829::2003");
    assert_eq!(LOG_FILE, "pinglog.txt");
    assert_eq!(PING_EVENT, "ping");
}

#[test]
fn a_successful_probe_is_stored_logged_and_published() {
    let mut history = PingBuffer::with_capacity(3);
    let outcome = record_probe(&mut history, second(0), Ok(15));
    let entry = PingEntry::new(15, second(0));
    assert_eq!(
        outcome,
        TickOutcome::Recorded { entry, line: String::from("2024-01-01T00:00:00Z, 15\n") }
    );
    assert_eq!(history.export_and_clear(), vec![entry]);
}

#[test]
fn a_failed_probe_leaves_no_trace() {
    for error in [
        ProbeError::Unreachable,
        ProbeError::PermissionDenied,
        ProbeError::TransportInit,
        ProbeError::Other(256),
    ] {
        let mut history = PingBuffer::with_capacity(3);
        history.store_entry(PingEntry::new(1, second(0)));
        let outcome = record_probe(&mut history, second(1), Err(error));
        assert_eq!(outcome, TickOutcome::Skipped { error });
        assert_eq!(history.len(), 1);
        assert_eq!(history.export_and_clear(), vec![PingEntry::new(1, second(0))]);
    }
}

#[test]
fn three_ticks_with_a_failure_in_the_middle() {
    let mut history = PingBuffer::empty();
    let mut log = String::new();
    let mut published = Vec::new();
    let probes = [Ok(15), Err(ProbeError::Unreachable), Ok(25)];
    for (tick, probe) in probes.into_iter().enumerate() {
        match record_probe(&mut history, second(tick as i64), probe) {
            TickOutcome::Recorded { entry, line } => {
                log.push_str(&line);
                published.push(entry);
            }
            TickOutcome::Skipped { .. } => {}
        }
    }
    assert_eq!(log, "2024-01-01T00:00:00Z, 15\n2024-01-01T00:00:02Z, 25\n");
    let lines: Vec<&str> = log.lines().collect();
    assert_eq!(lines.len(), 2);
    let read: Vec<u32> = lines.iter().map(|l| parse_line(l).unwrap().ping()).collect();
    assert_eq!(read, vec![15, 25]);
    let held = history.export_and_clear();
    assert_eq!(held.iter().map(|e| e.ping()).collect::<Vec<u32>>(), vec![15, 25]);
    assert_eq!(published, held);
}

#[test]
fn the_loop_dispatches_then_sleeps() {
    assert_eq!(next_step(LoopState::Idle, false), (LoopState::Dispatching, LoopAction::Dispatch));
    assert_eq!(
        next_step(LoopState::Dispatching, false),
        (LoopState::Idle, LoopAction::Sleep { millis: 1000 })
    );
}

#[test]
fn cancellation_is_seen_at_the_top_of_a_cycle_only() {
    assert_eq!(next_step(LoopState::Idle, true), (LoopState::Stopped, LoopAction::Exit));
    assert_eq!(
        next_step(LoopState::Dispatching, true),
        (LoopState::Idle, LoopAction::Sleep { millis: 1000 })
    );
    assert_eq!(next_step(LoopState::Stopped, false), (LoopState::Stopped, LoopAction::Exit));
    assert_eq!(next_step(LoopState::Stopped, true), (LoopState::Stopped, LoopAction::Exit));
}

#[test]
fn a_run_of_the_loop_until_cancelled() {
    let mut state = LoopState::Idle;
    let mut actions = Vec::new();
    for step in 0..9 {
        let (next, action) = next_step(state, step >= 5);
        state = next;
        actions.push(action);
    }
    let sleep = LoopAction::Sleep { millis: TICK_MILLIS };
    assert_eq!(
        actions,
        vec![
            LoopAction::Dispatch,
            sleep,
            LoopAction::Dispatch,
            sleep,
            LoopAction::Dispatch,
            sleep,
            LoopAction::Exit,
            LoopAction::Exit,
            LoopAction::Exit,
        ]
    );
    assert_eq!(state, LoopState::Stopped);
}
