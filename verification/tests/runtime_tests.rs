//! Scheduling behavior: spawning, draining, parking, waking, and teardown,
//! driven end to end against the deterministic host.

use wasi_socket::net::{SockAddr, SockAddrV4};
use wasi_socket::poll::{Event, EventType};
use wasi_socket::runtime::executor::{Executor, Step, TaskState};
use wasi_socket::runtime::iotask::{IoRecord, IoStep, IoTask};
use wasi_socket::runtime::reactor::{Interest, Reactor, RtError};
use wasi_socket::runtime::sim::{ReadStep, ScriptedSocket, StubHost};

fn loopback(port: u16) -> SockAddr {
    SockAddr::V4(SockAddrV4 { ip: [127, 0, 0, 1], port })
}

type Task = IoTask<ScriptedSocket>;

fn quiet_task(fd: i32, payload: &[u8]) -> Task {
    let sock = ScriptedSocket::new(fd, vec![], vec![]);
    IoTask::new(sock, vec![IoStep::Write(payload.to_vec())])
}

fn yield_once_root() -> Task {
    let sock = ScriptedSocket::new(99, vec![], vec![]);
    IoTask::new(sock, vec![IoStep::Yield])
}

/// Tasks that never suspend all complete before block_on returns, in queue
/// order relative to each other.
#[test]
fn never_suspending_tasks_finish_in_queue_order() {
    let mut ex: Executor<Task> = Executor::new();
    let a = ex.spawn(quiet_task(10, b"a"));
    let b = ex.spawn(quiet_task(11, b"b"));
    let c = ex.spawn(quiet_task(12, b"c"));
    assert_eq!((a, b, c), (0, 1, 2));

    let mut root = yield_once_root();
    let mut mux = StubHost::idle();
    let r = ex.block_on(&mut root, &mut mux, 4);
    assert!(matches!(r, Ok(Step::Ready)));
    assert!(root.is_done());
    assert_eq!(ex.task_state(0), Some(TaskState::Done));
    assert_eq!(ex.task_state(1), Some(TaskState::Done));
    assert_eq!(ex.task_state(2), Some(TaskState::Done));
    assert_eq!(ex.finished_order().as_slice(), &[0, 1, 2]);
}

/// A task parked on would-block, with no matching readiness ever
/// delivered, stays parked round after round.
#[test]
fn parked_task_without_readiness_stays_parked() {
    let mut ex: Executor<Task> = Executor::new();
    let sock = ScriptedSocket::new(7, vec![ReadStep::Block, ReadStep::Data(b"late".to_vec())], vec![]);
    let id = ex.spawn(IoTask::new(sock, vec![IoStep::Connect(loopback(1)), IoStep::Read(8)]));

    let mut mux = StubHost::idle();
    ex.drain();
    assert_eq!(ex.task_state(id), Some(TaskState::Parked));
    for _ in 0..5 {
        let woken = ex.wait_and_wake(&mut mux).unwrap();
        assert!(woken.is_empty());
        ex.drain();
        assert_eq!(ex.task_state(id), Some(TaskState::Parked));
    }
    assert!(ex.finished_order().is_empty());
}

/// Registering twice for the same (handle, direction) and firing once
/// invokes only the waker registered last.
#[test]
fn second_registration_replaces_first_waker() {
    let mut rt = Reactor::new();
    rt.add(7);
    rt.modify(7, Interest::Read, 1);
    rt.modify(7, Interest::Read, 2);
    let events = vec![Event { event_type: EventType::Read, userdata: 7 }];
    let woken = rt.dispatch(&events).unwrap();
    assert_eq!(woken.as_slice(), &[2]);
    assert!(!woken.contains(&1));
}

/// A wait with zero subscriptions returns an empty result at once: the
/// host primitive is never even consulted, so a host that would fail
/// cannot be blamed, and nothing blocks.
#[test]
fn wait_with_no_subscriptions_returns_empty() {
    let mut rt = Reactor::new();
    let mut poisoned = StubHost::failing(1099);
    let woken = rt.wait(&mut poisoned).unwrap();
    assert!(woken.is_empty());
}

/// Two tasks each connect, write four bytes, and read until would-block;
/// the socket would-blocks exactly once and then delivers.  The root
/// finishes without waiting for them; once readiness arrives, both observe
/// the delivery after the would-block.
#[test]
fn two_tasks_observe_delivery_after_would_block() {
    let mut ex: Executor<Task> = Executor::new();
    let mut ids = Vec::new();
    for fd in [21i32, 22i32] {
        let sock = ScriptedSocket::new(
            fd,
            vec![ReadStep::Block, ReadStep::Data(b"pong".to_vec())],
            vec![],
        );
        let program = vec![
            IoStep::Connect(loopback(80)),
            IoStep::Write(b"ping".to_vec()),
            IoStep::Read(16),
        ];
        ids.push(ex.spawn(IoTask::new(sock, program)));
    }

    let mut root = yield_once_root();
    let mut mux = StubHost::new(vec![21, 22], vec![], 0);
    let r = ex.block_on(&mut root, &mut mux, 1);
    assert!(matches!(r, Ok(Step::Ready)));
    // The root completed while both tasks were still parked on their reads.
    for &id in &ids {
        assert_eq!(ex.task_state(id), Some(TaskState::Parked));
    }

    // Drive the reactor until readiness is delivered and the tasks finish.
    let woken = ex.wait_and_wake(&mut mux).unwrap();
    assert_eq!(woken.len(), 2);
    ex.drain();
    for &id in &ids {
        assert_eq!(ex.task_state(id), Some(TaskState::Done));
        let log = ex.job(id).log();
        assert_eq!(
            log.as_slice(),
            &[
                IoRecord::Connected,
                IoRecord::Wrote(4),
                IoRecord::Blocked,
                IoRecord::ReadData(b"pong".to_vec()),
            ],
        );
        assert_eq!(ex.job(id).stream().socket().sent_bytes().as_slice(), b"ping");
    }
}

/// Tracking a handle and deleting it without ever registering interest
/// leaves later waits clean: the deleted handle is not in the subscription
/// set, and a wait over other live work neither errors nor names it.
#[test]
fn deleted_handle_leaves_no_trace() {
    let mut rt = Reactor::new();
    rt.add(8);
    rt.delete(8);
    rt.add(9);
    rt.modify(9, Interest::Write, 3);

    for sub in rt.subscriptions() {
        match sub {
            wasi_socket::poll::Subscription::IO { fd, .. } => assert_ne!(fd, 8),
            other => panic!("unexpected subscription {:?}", other),
        }
    }

    let mut mux = StubHost::new(vec![], vec![9], 0);
    let woken = rt.wait(&mut mux).unwrap();
    assert_eq!(woken.as_slice(), &[3]);
}

/// An event with no stored waker is a registration bug and fails loudly.
#[test]
fn event_without_waker_fails_loudly() {
    let mut rt = Reactor::new();
    let events = vec![Event { event_type: EventType::Read, userdata: 5 }];
    assert_eq!(rt.dispatch(&events), Err(RtError::NoWaker(5)));
}

/// A timeout report reaching the reactor is equally a registration bug:
/// the reactor never subscribes deadlines.
#[test]
fn timeout_event_at_reactor_fails_loudly() {
    let mut rt = Reactor::new();
    rt.add(4);
    rt.modify(4, Interest::Read, 0);
    let events = vec![Event { event_type: EventType::Timeout, userdata: 4 }];
    assert_eq!(rt.dispatch(&events), Err(RtError::NoWaker(4)));
}

/// A host failure is fatal to the wait and propagates out of block_on
/// unchanged.
#[test]
fn host_failure_propagates_out_of_block_on() {
    let mut ex: Executor<Task> = Executor::new();
    let sock = ScriptedSocket::new(31, vec![ReadStep::Block; 8], vec![]);
    ex.spawn(IoTask::new(sock, vec![IoStep::Connect(loopback(1)), IoStep::Read(4)]));

    let mut root = {
        let sock = ScriptedSocket::new(32, vec![ReadStep::Block; 8], vec![]);
        IoTask::new(sock, vec![IoStep::Connect(loopback(2)), IoStep::Read(4)])
    };
    let mut mux = StubHost::failing(52);
    let r = ex.block_on(&mut root, &mut mux, 3);
    assert_eq!(r, Err(RtError::Host(52)));
}

/// Waking an already-queued task is a no-op: it is run once, not twice.
#[test]
fn duplicate_wake_does_not_duplicate_a_run() {
    let mut ex: Executor<Task> = Executor::new();
    let id = ex.spawn(quiet_task(41, b"x"));
    ex.wake(id);
    ex.wake(id);
    ex.drain();
    assert_eq!(ex.finished_order().as_slice(), &[id]);
}

/// When the wait budget runs out with the root still suspended, block_on
/// reports that instead of finishing.
#[test]
fn block_on_reports_pending_when_budget_runs_out() {
    let mut ex: Executor<Task> = Executor::new();
    let mut root = {
        let sock = ScriptedSocket::new(51, vec![ReadStep::Block; 8], vec![]);
        IoTask::new(sock, vec![IoStep::Connect(loopback(5)), IoStep::Read(4)])
    };
    let mut mux = StubHost::idle();
    let r = ex.block_on(&mut root, &mut mux, 2);
    assert!(matches!(r, Ok(Step::Pending)));
    assert!(!root.is_done());
}

/// The adapter's connect registers the handle with no interest: nothing
/// fires for it until interest is registered, even if the handle is ready.
#[test]
fn connect_tracks_handle_without_interest() {
    let mut rt = Reactor::new();
    let sock = ScriptedSocket::new(61, vec![], vec![]);
    let _stream =
        wasi_socket::runtime::tcp::AsyncTcpStream::connect(sock, &loopback(7), &mut rt).unwrap();
    let subs = rt.subscriptions();
    assert_eq!(subs.len(), 1);
    match subs[0] {
        wasi_socket::poll::Subscription::IO { userdata, fd, read_event, write_event } => {
            assert_eq!((userdata, fd, read_event, write_event), (0, 61, false, false));
        },
        other => panic!("unexpected subscription {:?}", other),
    }
    let mut mux = StubHost::new(vec![61], vec![], 0);
    let woken = rt.wait(&mut mux).unwrap();
    assert!(woken.is_empty());
}

/// A root that never suspends completes on its first advance: block_on
/// returns without running queued tasks or consulting the reactor.
#[test]
fn immediate_root_completes_without_the_reactor() {
    let mut ex: Executor<Task> = Executor::new();
    let id = ex.spawn(quiet_task(71, b"later"));
    let mut root = quiet_task(72, b"now");
    let mut mux = StubHost::failing(17);
    let r = ex.block_on(&mut root, &mut mux, 5);
    assert!(matches!(r, Ok(Step::Ready)));
    assert!(root.is_done());
    assert_eq!(ex.task_state(id), Some(TaskState::Queued));
}

/// Waking an id that names no task does nothing.
#[test]
fn waking_an_unknown_id_is_a_no_op() {
    let mut ex: Executor<Task> = Executor::new();
    let id = ex.spawn(quiet_task(81, b"x"));
    ex.wake(usize::MAX);
    ex.drain();
    assert_eq!(ex.finished_order().as_slice(), &[id]);
    assert_eq!(ex.task_state(usize::MAX), None);
}

/// Registering interest for a handle that was never added stores the
/// waker—an event for it still fires—but adds no subscription, so the
/// multiplexer is never asked about the handle.
#[test]
fn interest_without_tracking_stores_only_the_waker() {
    let mut rt = Reactor::new();
    rt.modify(5, Interest::Read, 1);
    assert!(rt.subscriptions().is_empty());
    let events = vec![Event { event_type: EventType::Read, userdata: 5 }];
    assert_eq!(rt.dispatch(&events).unwrap().as_slice(), &[1]);
}
