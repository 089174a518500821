//! Wait requests and readiness events.
//!
//! A `Subscription` is one wait request: interest in I/O readiness on a
//! handle, an absolute deadline, or both.  Before the host's multi-wait
//! primitive can be called, the subscriptions are flattened into raw records
//! (`RawSubscription`), one per direction or deadline; the raw events that
//! come back are folded into `Event`s.  Both translations are verified; the
//! host call itself stands behind the `HostPoll` trait.

use vstd::prelude::*;

verus! {

/// A wait request.  Deadlines are absolute, in nanoseconds since the epoch.
#[derive(Clone, Copy, Debug, PartialEq, Eq, Structural)]
pub enum Subscription {
    Timeout { userdata: u64, timeout: u64 },
    IO { userdata: u64, fd: i32, read_event: bool, write_event: bool },
    TimeoutIO { userdata: u64, fd: i32, read_event: bool, write_event: bool, timeout: u64 },
}

impl Subscription {
    pub fn timeout(userdata: u64, timeout: u64) -> (s: Self)
        ensures
            s == (Subscription::Timeout { userdata, timeout }),
    {
        Subscription::Timeout { userdata, timeout }
    }

    pub fn io(userdata: u64, fd: i32, read_event: bool, write_event: bool, timeout: Option<u64>) -> (s: Self)
        ensures
            s == match timeout {
                Some(t) => (Subscription::TimeoutIO { userdata, fd, read_event, write_event, timeout: t }),
                None => (Subscription::IO { userdata, fd, read_event, write_event }),
            },
    {
        if let Some(t) = timeout {
            Subscription::TimeoutIO { userdata, fd, read_event, write_event, timeout: t }
        } else {
            Subscription::IO { userdata, fd, read_event, write_event }
        }
    }
}

/// Why an I/O event reports a failure: a host error code, or a hang-up seen
/// while waiting for writability.
#[derive(Clone, Copy, Debug, PartialEq, Eq, Structural)]
pub enum IoFault {
    Os(i32),
    Hangup,
}

#[derive(Clone, Copy, Debug, PartialEq, Eq, Structural)]
pub enum EventType {
    Timeout,
    Error(IoFault),
    Read,
    Write,
}

/// The multiplexer's report: why it woke, and the identity token of the
/// subscription that fired.
#[derive(Clone, Copy, Debug, PartialEq, Eq, Structural)]
pub struct Event {
    pub event_type: EventType,
    pub userdata: u64,
}

/// One raw record handed to the host: a single direction of interest on one
/// descriptor, or one absolute deadline.
#[derive(Clone, Copy, Debug, PartialEq, Eq, Structural)]
pub enum RawSubscriptionKind {
    Clock { timeout: u64 },
    FdRead { fd: u32 },
    FdWrite { fd: u32 },
}

#[derive(Clone, Copy, Debug, PartialEq, Eq, Structural)]
pub struct RawSubscription {
    pub userdata: u64,
    pub kind: RawSubscriptionKind,
}

#[derive(Clone, Copy, Debug, PartialEq, Eq, Structural)]
pub enum RawEventKind {
    Clock,
    FdRead,
    FdWrite,
}

/// One raw event from the host.  A non-zero `error` carries the host's error
/// code for the descriptor; `hangup` reports that the peer closed while the
/// caller waited for writability.
#[derive(Clone, Copy, Debug, PartialEq, Eq, Structural)]
pub struct RawEvent {
    pub userdata: u64,
    pub kind: RawEventKind,
    pub error: u16,
    pub hangup: bool,
}

/// The raw records that one subscription contributes: one per requested
/// direction, then one for the deadline if there is one.  An I/O
/// subscription with no direction contributes nothing, so it can never fire.
pub open spec fn raw_of_one(s: Subscription) -> Seq<RawSubscription> {
    match s {
        Subscription::Timeout { userdata, timeout } => seq![
            (RawSubscription { userdata, kind: RawSubscriptionKind::Clock { timeout } }),
        ],
        Subscription::IO { userdata, fd, read_event, write_event } => raw_io_part(
            userdata,
            fd,
            read_event,
            write_event,
        ),
        Subscription::TimeoutIO { userdata, fd, read_event, write_event, timeout } => raw_io_part(
            userdata,
            fd,
            read_event,
            write_event,
        ) + seq![(RawSubscription { userdata, kind: RawSubscriptionKind::Clock { timeout } })],
    }
}

pub open spec fn raw_io_part(userdata: u64, fd: i32, read_event: bool, write_event: bool) -> Seq<
    RawSubscription,
> {
    (if read_event {
        seq![(RawSubscription { userdata, kind: RawSubscriptionKind::FdRead { fd: fd as u32 } })]
    } else {
        Seq::empty()
    }) + (if write_event {
        seq![(RawSubscription { userdata, kind: RawSubscriptionKind::FdWrite { fd: fd as u32 } })]
    } else {
        Seq::empty()
    })
}

/// The flattening of a whole subscription list, in order.
pub open spec fn raw_subs_of(s: Seq<Subscription>) -> Seq<RawSubscription>
    decreases s.len(),
{
    if s.len() == 0 {
        Seq::empty()
    } else {
        raw_of_one(s[0]) + raw_subs_of(s.drop_first())
    }
}

proof fn lemma_raw_subs_of_push(s: Seq<Subscription>, x: Subscription)
    ensures
        raw_subs_of(s.push(x)) == raw_subs_of(s) + raw_of_one(x),
    decreases s.len(),
{
    reveal_with_fuel(raw_subs_of, 3);
    if s.len() == 0 {
        assert(s.push(x).drop_first() =~= Seq::<Subscription>::empty());
        assert(s.push(x)[0] == x);
        assert(raw_subs_of(s.push(x)) =~= raw_subs_of(s) + raw_of_one(x));
    } else {
        assert(s.push(x).drop_first() =~= s.drop_first().push(x));
        assert(s.push(x)[0] == s[0]);
        lemma_raw_subs_of_push(s.drop_first(), x);
        assert(raw_subs_of(s.push(x)) == raw_of_one(s[0]) + (raw_subs_of(s.drop_first())
            + raw_of_one(x)));
        assert(raw_subs_of(s.push(x)) =~= raw_subs_of(s) + raw_of_one(x));
    }
}

/// Flattens subscriptions into the raw records the host understands.
pub fn to_subscription_vec(subs: &Vec<Subscription>) -> (fds: Vec<RawSubscription>)
    ensures
        fds@ == raw_subs_of(subs@),
{
    let mut fds: Vec<RawSubscription> = Vec::new();
    let mut i: usize = 0;
    while i < subs.len()
        invariant
            i <= subs@.len(),
            fds@ == raw_subs_of(subs@.take(i as int)),
        decreases subs@.len() - i,
    {
        let s = subs[i];
        let ghost fds_before = fds@;
        match s {
            Subscription::Timeout { userdata, timeout } => {
                fds.push(RawSubscription { userdata, kind: RawSubscriptionKind::Clock { timeout } });
            },
            Subscription::IO { userdata, fd, read_event, write_event } => {
                if read_event {
                    fds.push(RawSubscription {
                        userdata,
                        kind: RawSubscriptionKind::FdRead { fd: fd as u32 },
                    });
                }
                if write_event {
                    fds.push(RawSubscription {
                        userdata,
                        kind: RawSubscriptionKind::FdWrite { fd: fd as u32 },
                    });
                }
            },
            Subscription::TimeoutIO { userdata, fd, read_event, write_event, timeout } => {
                if read_event {
                    fds.push(RawSubscription {
                        userdata,
                        kind: RawSubscriptionKind::FdRead { fd: fd as u32 },
                    });
                }
                if write_event {
                    fds.push(RawSubscription {
                        userdata,
                        kind: RawSubscriptionKind::FdWrite { fd: fd as u32 },
                    });
                }
                fds.push(RawSubscription { userdata, kind: RawSubscriptionKind::Clock { timeout } });
            },
        }
        proof {
            assert(fds@ =~= fds_before + raw_of_one(s));
            lemma_raw_subs_of_push(subs@.take(i as int), s);
            assert(subs@.take(i as int).push(s) =~= subs@.take(i + 1 as int));
        }
        i = i + 1;
    }
    proof {
        assert(subs@.take(subs@.len() as int) =~= subs@);
    }
    fds
}

/// How one raw event reads as a report: a clock record fired the deadline; a
/// descriptor record with a host error code reports that error; waiting for
/// writability that ended in a hang-up reports a fault; otherwise the
/// direction is ready.
pub open spec fn event_of_raw(e: RawEvent) -> Event {
    match e.kind {
        RawEventKind::Clock => Event { event_type: EventType::Timeout, userdata: e.userdata },
        RawEventKind::FdRead => if e.error > 0 {
            Event { event_type: EventType::Error(IoFault::Os(e.error as i32)), userdata: e.userdata }
        } else {
            Event { event_type: EventType::Read, userdata: e.userdata }
        },
        RawEventKind::FdWrite => if e.error > 0 {
            Event { event_type: EventType::Error(IoFault::Os(e.error as i32)), userdata: e.userdata }
        } else if e.hangup {
            Event { event_type: EventType::Error(IoFault::Hangup), userdata: e.userdata }
        } else {
            Event { event_type: EventType::Write, userdata: e.userdata }
        },
    }
}

pub open spec fn events_of(raw: Seq<RawEvent>) -> Seq<Event> {
    raw.map_values(|e: RawEvent| event_of_raw(e))
}

/// Folds the host's raw events into reports.
pub fn events_from_raw(raw: &Vec<RawEvent>) -> (events: Vec<Event>)
    ensures
        events@ == events_of(raw@),
{
    let mut events: Vec<Event> = Vec::new();
    let mut i: usize = 0;
    while i < raw.len()
        invariant
            i <= raw@.len(),
            events@ == events_of(raw@.take(i as int)),
        decreases raw@.len() - i,
    {
        let e = raw[i];
        let ghost events_before = events@;
        match e.kind {
            RawEventKind::Clock => {
                events.push(Event { event_type: EventType::Timeout, userdata: e.userdata });
            },
            RawEventKind::FdRead => {
                if e.error > 0 {
                    events.push(Event {
                        event_type: EventType::Error(IoFault::Os(e.error as i32)),
                        userdata: e.userdata,
                    });
                } else {
                    events.push(Event { event_type: EventType::Read, userdata: e.userdata });
                }
            },
            RawEventKind::FdWrite => {
                if e.error > 0 {
                    events.push(Event {
                        event_type: EventType::Error(IoFault::Os(e.error as i32)),
                        userdata: e.userdata,
                    });
                } else if e.hangup {
                    events.push(Event {
                        event_type: EventType::Error(IoFault::Hangup),
                        userdata: e.userdata,
                    });
                } else {
                    events.push(Event { event_type: EventType::Write, userdata: e.userdata });
                }
            },
        }
        proof {
            assert(events@ =~= events_before.push(event_of_raw(e)));
            assert(raw@.take(i + 1 as int) =~= raw@.take(i as int).push(e));
            assert(events_of(raw@.take(i + 1 as int)) =~= events_of(raw@.take(i as int)).push(
                event_of_raw(e),
            ));
        }
        i = i + 1;
    }
    proof {
        assert(raw@.take(raw@.len() as int) =~= raw@);
    }
    events
}

/// A raw subscription and a raw event agree: same identity token, and the
/// event's kind is the one that record asked about.
pub open spec fn sub_event_compatible(s: RawSubscription, ev: RawEvent) -> bool {
    s.userdata == ev.userdata && match s.kind {
        RawSubscriptionKind::Clock { .. } => ev.kind is Clock,
        RawSubscriptionKind::FdRead { .. } => ev.kind is FdRead,
        RawSubscriptionKind::FdWrite { .. } => ev.kind is FdWrite,
    }
}

pub open spec fn raw_event_matches(subs: Seq<RawSubscription>, ev: RawEvent) -> bool {
    exists|j: int| 0 <= j < subs.len() && sub_event_compatible(#[trigger] subs[j], ev)
}

/// The host's blocking multi-wait primitive.  A host may block, and which
/// subscriptions fire depends on the outside world; all that is promised of
/// every outcome is that each event answers one of the records it was given.
pub trait HostPoll {
    fn wait_raw(&mut self, subs: &Vec<RawSubscription>) -> (r: Result<Vec<RawEvent>, i32>)
        ensures
            r matches Ok(evs) ==> forall|i: int|
                0 <= i < evs@.len() ==> raw_event_matches(subs@, #[trigger] evs@[i]),
    ;
}

/// A subscription claims an event when the token agrees and the report is of
/// a kind the subscription asked for.
pub open spec fn sub_claims_event(s: Subscription, ev: Event) -> bool {
    match s {
        Subscription::Timeout { userdata, .. } => ev.userdata == userdata && ev.event_type
            is Timeout,
        Subscription::IO { userdata, read_event, write_event, .. } => ev.userdata == userdata
            && io_report(read_event, write_event, ev.event_type),
        Subscription::TimeoutIO { userdata, read_event, write_event, .. } => ev.userdata == userdata
            && (ev.event_type is Timeout || io_report(read_event, write_event, ev.event_type)),
    }
}

pub open spec fn io_report(read_event: bool, write_event: bool, t: EventType) -> bool {
    (read_event && (t is Read || t is Error)) || (write_event && (t is Write || t is Error))
}

pub open spec fn event_claimed(subs: Seq<Subscription>, ev: Event) -> bool {
    exists|j: int| 0 <= j < subs.len() && sub_claims_event(#[trigger] subs[j], ev)
}

proof fn lemma_raw_member_claimed(subs: Seq<Subscription>, rs: RawSubscription, ev: RawEvent)
    requires
        raw_subs_of(subs).contains(rs),
        sub_event_compatible(rs, ev),
    ensures
        event_claimed(subs, event_of_raw(ev)),
    decreases subs.len(),
{
    if subs.len() > 0 {
        if raw_of_one(subs[0]).contains(rs) {
            assert(sub_claims_event(subs[0], event_of_raw(ev)));
        } else {
            assert(raw_subs_of(subs.drop_first()).contains(rs)) by {
                let k = choose|k: int|
                    0 <= k < raw_subs_of(subs).len() && raw_subs_of(subs)[k] == rs;
                assert(raw_subs_of(subs)[k] == rs);
                let n = raw_of_one(subs[0]).len() as int;
                assert(k >= n) by {
                    if k < n {
                        assert(raw_of_one(subs[0])[k] == rs);
                    }
                }
                assert(raw_subs_of(subs.drop_first())[k - n] == rs);
            }
            lemma_raw_member_claimed(subs.drop_first(), rs, ev);
            let j = choose|j: int|
                0 <= j < subs.drop_first().len() && sub_claims_event(
                    #[trigger] subs.drop_first()[j],
                    event_of_raw(ev),
                );
            assert(sub_claims_event(subs[j + 1], event_of_raw(ev)));
        }
    }
}

/// Blocks on the host until one of the subscriptions fires, and reports which
/// and why.  An empty subscription list returns at once with an empty report;
/// a host failure is fatal to the call and propagates unchanged.  Every event
/// returned answers one of the subscriptions given.
pub fn poll<M: HostPoll>(mux: &mut M, subs: &Vec<Subscription>) -> (r: Result<Vec<Event>, i32>)
    ensures
        subs@.len() == 0 ==> (r matches Ok(evs) && evs@.len() == 0),
        r matches Ok(evs) ==> forall|i: int|
            0 <= i < evs@.len() ==> event_claimed(subs@, #[trigger] evs@[i]),
{
    if subs.len() == 0 {
        return Ok(Vec::new());
    }
    let fds = to_subscription_vec(subs);
    match mux.wait_raw(&fds) {
        Ok(raw) => {
            let events = events_from_raw(&raw);
            proof {
                assert forall|i: int| 0 <= i < events@.len() implies event_claimed(
                    subs@,
                    #[trigger] events@[i],
                ) by {
                    assert(raw_event_matches(fds@, raw@[i]));
                    let j = choose|j: int|
                        0 <= j < fds@.len() && sub_event_compatible(#[trigger] fds@[j], raw@[i]);
                    assert(fds@.contains(fds@[j]));
                    lemma_raw_member_claimed(subs@, fds@[j], raw@[i]);
                }
            }
            Ok(events)
        },
        Err(e) => Err(e),
    }
}

} // verus!
