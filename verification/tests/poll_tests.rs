//! The subscription and event translations, and the multiplexer's
//! behavior over the deterministic host.

use wasi_socket::poll::{
    poll, to_subscription_vec, events_from_raw, Event, EventType, IoFault, RawEvent, RawEventKind,
    RawSubscription, RawSubscriptionKind, Subscription,
};
use wasi_socket::runtime::sim::StubHost;

#[test]
fn timeout_subscription_flattens_to_one_clock_record() {
    let subs = vec![Subscription::timeout(9, 1_000)];
    let raw = to_subscription_vec(&subs);
    assert_eq!(
        raw.as_slice(),
        &[RawSubscription { userdata: 9, kind: RawSubscriptionKind::Clock { timeout: 1_000 } }],
    );
}

#[test]
fn io_subscription_flattens_to_one_record_per_direction() {
    let subs = vec![Subscription::io(3, 12, true, true, None)];
    let raw = to_subscription_vec(&subs);
    assert_eq!(
        raw.as_slice(),
        &[
            RawSubscription { userdata: 3, kind: RawSubscriptionKind::FdRead { fd: 12 } },
            RawSubscription { userdata: 3, kind: RawSubscriptionKind::FdWrite { fd: 12 } },
        ],
    );
}

#[test]
fn io_subscription_with_no_direction_flattens_to_nothing() {
    let subs = vec![Subscription::io(3, 12, false, false, None)];
    assert!(to_subscription_vec(&subs).is_empty());
}

#[test]
fn deadline_io_subscription_ends_with_its_clock_record() {
    let subs = vec![Subscription::io(4, 5, true, false, Some(77))];
    let raw = to_subscription_vec(&subs);
    assert_eq!(
        raw.as_slice(),
        &[
            RawSubscription { userdata: 4, kind: RawSubscriptionKind::FdRead { fd: 5 } },
            RawSubscription { userdata: 4, kind: RawSubscriptionKind::Clock { timeout: 77 } },
        ],
    );
}

#[test]
fn raw_events_fold_to_reports() {
    let raw = vec![
        RawEvent { userdata: 1, kind: RawEventKind::Clock, error: 0, hangup: false },
        RawEvent { userdata: 2, kind: RawEventKind::FdRead, error: 0, hangup: false },
        RawEvent { userdata: 3, kind: RawEventKind::FdRead, error: 104, hangup: false },
        RawEvent { userdata: 4, kind: RawEventKind::FdWrite, error: 0, hangup: true },
        RawEvent { userdata: 5, kind: RawEventKind::FdWrite, error: 0, hangup: false },
    ];
    let events = events_from_raw(&raw);
    assert_eq!(
        events.as_slice(),
        &[
            Event { event_type: EventType::Timeout, userdata: 1 },
            Event { event_type: EventType::Read, userdata: 2 },
            Event { event_type: EventType::Error(IoFault::Os(104)), userdata: 3 },
            Event { event_type: EventType::Error(IoFault::Hangup), userdata: 4 },
            Event { event_type: EventType::Write, userdata: 5 },
        ],
    );
}

/// A deadline already in the past, on a host with no data for the handle,
/// reports a timeout, not readability.
#[test]
fn past_deadline_reports_timeout_not_readable() {
    let subs = vec![Subscription::io(5, 3, true, false, Some(100))];
    let mut mux = StubHost::new(vec![], vec![], 200);
    let events = poll(&mut mux, &subs).unwrap();
    assert_eq!(events.as_slice(), &[Event { event_type: EventType::Timeout, userdata: 5 }]);
}

/// Readiness delivered before the deadline suppresses the deadline within
/// the same call: the report is readability, once.
#[test]
fn readiness_before_deadline_suppresses_timeout() {
    let subs = vec![Subscription::io(5, 3, true, false, Some(100))];
    let mut mux = StubHost::new(vec![3], vec![], 200);
    let events = poll(&mut mux, &subs).unwrap();
    assert_eq!(events.as_slice(), &[Event { event_type: EventType::Read, userdata: 5 }]);
}

/// An empty subscription list returns an empty report at once, without
/// consulting the host.
#[test]
fn empty_subscriptions_poll_to_empty_report() {
    let subs: Vec<Subscription> = vec![];
    let mut mux = StubHost::failing(7);
    let events = poll(&mut mux, &subs).unwrap();
    assert!(events.is_empty());
}

/// A host failure is fatal to the call and propagates unchanged.
#[test]
fn host_failure_propagates_from_poll() {
    let subs = vec![Subscription::timeout(1, 1)];
    let mut mux = StubHost::failing(48);
    assert_eq!(poll(&mut mux, &subs), Err(48));
}
