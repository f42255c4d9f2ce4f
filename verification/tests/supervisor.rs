use topspin::codec::{encode, Frame};
use topspin::forwarder::{merge_pending, prune_failed, ForwardState};
use topspin::killable::{ChildPoll, KillableWait, PollInput, PollOutcome, Terminal};
use topspin::model::{program_id, ExitStatus, OsError, RunResponse};
use topspin::supervisor::{PendingTerminals, SpawnerCore};

#[test]
fn run_then_kill_terminal_once() {
    // Run a blocking command, observe its start, kill it, and see exactly
    // one terminal event.
    let mut core: SpawnerCore<u8, Vec<u8>> = SpawnerCore::new();
    core.on_run_spawned(program_id(0), "cat".to_string(), 42u8);
    let started = RunResponse::Started(program_id(0), 1234);
    assert_eq!(started.program_id(), program_id(0));

    // The kill request removes and hands back the cancellation handle.
    let handle = core.on_kill(program_id(0));
    assert_eq!(handle, Some(42u8));
    // Killing again is a silent no-op.
    assert_eq!(core.on_kill(program_id(0)), None);

    // The wait races the cancellation against the exit: the signal goes
    // out once, and the terminal event comes exactly once.
    let mut wait = KillableWait::new();
    assert!(wait.should_signal(true));
    let first = wait.poll_step(PollInput {
        cancel_fired: true,
        signal_error: None,
        child: ChildPoll::Pending,
    });
    assert_eq!(first, PollOutcome::Pending);
    // The kill was delivered; no second signal, even if the channel still
    // reads as fired.
    assert!(!wait.should_signal(true));
    let second = wait.poll_step(PollInput {
        cancel_fired: true,
        signal_error: None,
        child: ChildPoll::Exited(ExitStatus(0)),
    });
    assert_eq!(
        second,
        PollOutcome::Terminal(Terminal::Exited(ExitStatus(0)))
    );
}

#[test]
fn signal_failure_is_the_terminal_event() {
    let mut wait = KillableWait::new();
    assert!(wait.should_signal(true));
    let out = wait.poll_step(PollInput {
        cancel_fired: true,
        signal_error: Some(OsError(3)),
        child: ChildPoll::Pending,
    });
    assert_eq!(out, PollOutcome::Terminal(Terminal::Failed(OsError(3))));
}

#[test]
fn wait_failure_is_the_terminal_event() {
    let mut wait = KillableWait::new();
    let out = wait.poll_step(PollInput {
        cancel_fired: false,
        signal_error: None,
        child: ChildPoll::Failed(OsError(10)),
    });
    assert_eq!(out, PollOutcome::Terminal(Terminal::Failed(OsError(10))));
}

#[test]
fn natural_exit_without_kill() {
    let mut wait = KillableWait::new();
    let pending = wait.poll_step(PollInput {
        cancel_fired: false,
        signal_error: None,
        child: ChildPoll::Pending,
    });
    assert_eq!(pending, PollOutcome::Pending);
    // Still no kill due: the cancellation never fired.
    assert!(!wait.should_signal(false));
    let done = wait.poll_step(PollInput {
        cancel_fired: false,
        signal_error: None,
        child: ChildPoll::Exited(ExitStatus(7)),
    });
    assert_eq!(done, PollOutcome::Terminal(Terminal::Exited(ExitStatus(7))));
}

#[test]
fn sink_for_unknown_alias_dropped() {
    // A viewer asks for an alias before any matching command runs: the
    // connection is dropped, nothing crashes, nothing is retained.
    let mut core: SpawnerCore<u8, Vec<u8>> = SpawnerCore::new();
    let attached = core.on_sink(&"netcat".to_string(), vec![1, 2, 3]);
    assert!(!attached);
    assert!(core.log_sinks.get(program_id(0)).is_none());
}

#[test]
fn sink_for_exited_program_dropped() {
    let mut core: SpawnerCore<u8, Vec<u8>> = SpawnerCore::new();
    core.on_run_spawned(program_id(0), "nc".to_string(), 1u8);
    // Tear the sink set down as a finished program's cleanup would.
    core.log_sinks.remove(program_id(0));
    let attached = core.on_sink(&"nc".to_string(), Vec::new());
    assert!(!attached);
}

#[test]
fn two_sinks_receive_every_frame() {
    let mut core: SpawnerCore<u8, Vec<u8>> = SpawnerCore::new();
    core.on_run_spawned(program_id(0), "cat".to_string(), 7u8);
    assert!(core.on_sink(&"cat".to_string(), Vec::new()));
    assert!(core.on_sink(&"cat".to_string(), Vec::new()));

    // The forwarder merges the newly attached sinks before its write
    // pass.
    let mut active: Vec<Vec<u8>> = Vec::new();
    merge_pending(&mut active, core.log_sinks.get_mut(program_id(0)).unwrap());
    assert_eq!(active.len(), 2);

    // First frame reaches both sinks.
    let first = encode(1, b"hello");
    for sink in active.iter_mut() {
        sink.extend_from_slice(&first);
    }

    // On the second frame one sink's write fails; it is dropped and the
    // other is unaffected.
    let second = encode(2, b"world");
    active[0].extend_from_slice(&second);
    let ok = vec![true, false];
    let mut active = prune_failed(active, &ok);
    assert_eq!(active.len(), 1);

    // The survivor keeps receiving.
    let third = encode(1, b"again");
    active[0].extend_from_slice(&third);

    // Its stream decodes to every frame, in order, payloads intact.
    let mut received: Vec<(u8, Vec<u8>)> = Vec::new();
    let mut rest: &[u8] = &active[0];
    while let Some((frame, consumed)) = Frame::parse(rest).unwrap() {
        received.push((frame.tag(), frame.payload().clone()));
        rest = &rest[consumed..];
    }
    assert_eq!(
        received,
        vec![
            (1u8, b"hello".to_vec()),
            (2u8, b"world".to_vec()),
            (1u8, b"again".to_vec()),
        ]
    );
}

#[test]
fn stop_drains_running_process() {
    // Stop while a program runs: its cancellation handle is drained so
    // the kill goes out, and the loop may exit only after the terminal
    // event is observed — no orphaned child.
    let mut core: SpawnerCore<u8, Vec<u8>> = SpawnerCore::new();
    let mut pending = PendingTerminals::new();
    core.on_run_spawned(program_id(0), "cat".to_string(), 9u8);
    pending.expect(program_id(0));
    let handles = core.shutdown();
    assert_eq!(handles, vec![9u8]);
    assert_eq!(core.on_kill(program_id(0)), None);

    // The termination is still owed: the loop must keep waiting.
    assert!(!pending.none_left());
    let mut wait = KillableWait::new();
    assert!(wait.should_signal(true));
    let out = wait.poll_step(PollInput {
        cancel_fired: true,
        signal_error: None,
        child: ChildPoll::Exited(ExitStatus(15)),
    });
    assert_eq!(out, PollOutcome::Terminal(Terminal::Exited(ExitStatus(15))));
    pending.settle(&RunResponse::Exited(program_id(0), ExitStatus(15)));
    assert!(pending.none_left());
}

#[test]
fn forwarder_closes_streams_and_stops() {
    let mut state = ForwardState::new();
    assert!(!state.finished());
    // A read that returned data is framed with its stream's tag.
    assert_eq!(state.on_read(true, 5), Some(1));
    assert_eq!(state.on_read(false, 3), Some(2));
    // A zero-byte read closes that stream and emits nothing.
    assert_eq!(state.on_read(true, 0), None);
    assert!(!state.stdout_open);
    assert!(!state.finished());
    // The other stream is served on until it closes too.
    assert_eq!(state.on_read(false, 1), Some(2));
    assert_eq!(state.on_read(false, 0), None);
    assert!(state.finished());
}

#[test]
fn terminals_owed_until_observed() {
    let mut pending = PendingTerminals::new();
    assert!(pending.none_left());
    pending.expect(program_id(0));
    pending.expect(program_id(1));
    assert!(!pending.none_left());
    // A start pays nothing off.
    pending.settle(&RunResponse::Started(program_id(0), 10));
    assert!(!pending.none_left());
    // Each terminal event releases exactly the program it names.
    pending.settle(&RunResponse::Exited(program_id(0), ExitStatus(0)));
    assert!(!pending.none_left());
    pending.settle(&RunResponse::IoError(program_id(1), OsError(9)));
    assert!(pending.none_left());
}

#[test]
fn alias_remaps_to_newest_run() {
    let mut core: SpawnerCore<u8, Vec<u8>> = SpawnerCore::new();
    core.on_run_spawned(program_id(0), "srv".to_string(), 1u8);
    core.on_run_spawned(program_id(1), "srv".to_string(), 2u8);
    assert!(core.on_sink(&"srv".to_string(), vec![9]));
    // The sink landed on the newest program under that alias.
    assert_eq!(core.log_sinks.get(program_id(1)).unwrap(), &vec![vec![9u8]]);
    assert_eq!(core.log_sinks.get(program_id(0)).unwrap().len(), 0);
}
