//! The reactor: the live subscription set and the wake table.
//!
//! The reactor owns one subscription per tracked handle and a table mapping
//! (handle, direction) to the waker registered most recently for it.  On
//! `wait` it rebuilds the subscription list from its table, blocks on the
//! multiplexer, and removes and returns the waker of every event that fired.
//! Registration is single-shot: a waker fires once and must be re-registered
//! on every suspension, and a second registration for the same (handle,
//! direction) replaces the first.

use crate::poll::{event_claimed, Event, EventType, HostPoll, Subscription};
use crate::table::{lookup, values_of, without_key, KeyTable};
use vstd::prelude::*;

verus! {

/// A readiness direction a registration cares about.
#[derive(Clone, Copy, Debug, PartialEq, Eq, Structural)]
pub enum Interest {
    Read,
    Write,
}

/// A runtime failure that propagates out of the executor: the host's wait
/// primitive failed, or an event arrived for a (handle, direction) with no
/// stored waker, which signals a registration bug and must surface rather
/// than be dropped.
#[derive(Clone, Copy, Debug, PartialEq, Eq, Structural)]
pub enum RtError {
    Host(i32),
    NoWaker(u64),
}

/// The identity token a tracked handle uses in its subscriptions.
pub open spec fn spec_fd_token(fd: i32) -> u64 {
    fd as u32 as u64
}

/// The wake-table key of one (handle, direction).
pub open spec fn spec_fd_key(fd: i32, interest: Interest) -> u64 {
    match interest {
        Interest::Read => (spec_fd_token(fd) * 2) as u64,
        Interest::Write => (spec_fd_token(fd) * 2 + 1) as u64,
    }
}

pub fn fd_token(fd: i32) -> (t: u64)
    ensures
        t == spec_fd_token(fd),
{
    (fd as u32) as u64
}

pub fn fd_key(fd: i32, interest: Interest) -> (k: u64)
    ensures
        k == spec_fd_key(fd, interest),
{
    let base: u64 = (fd as u32) as u64;
    match interest {
        Interest::Read => base * 2,
        Interest::Write => base * 2 + 1,
    }
}

/// The subscription that `modify` stores for one (handle, direction).
pub open spec fn io_sub_for(fd: i32, interest: Interest) -> Subscription {
    Subscription::IO {
        userdata: spec_fd_token(fd),
        fd,
        read_event: interest is Read,
        write_event: interest is Write,
    }
}

/// The subscription that `add` stores: tracked, but interested in nothing,
/// so it contributes no raw records and can never fire.
pub open spec fn idle_sub_for(fd: i32) -> Subscription {
    Subscription::IO { userdata: 0, fd, read_event: false, write_event: false }
}

/// The subscription set, keyed by handle token.  Rebuilt into a plain list
/// on every wait; the multiplexer itself holds no state between calls.
pub struct Poller {
    subs: KeyTable<Subscription>,
}

impl Poller {
    /// The tracked subscriptions, in storage order.
    pub closed spec fn rows(&self) -> Seq<(u64, Subscription)> {
        self.subs.rows()
    }

    pub fn new() -> (p: Self)
        ensures
            p.rows() == Seq::<(u64, Subscription)>::empty(),
    {
        Poller { subs: KeyTable::new() }
    }

    /// Begins tracking `fd` with no interest.
    pub fn add(&mut self, fd: i32)
        ensures
            final(self).rows() == without_key(old(self).rows(), spec_fd_token(fd)).push(
                (spec_fd_token(fd), idle_sub_for(fd)),
            ),
            lookup(final(self).rows(), spec_fd_token(fd)) == Some(idle_sub_for(fd)),
            forall|k: u64| k != spec_fd_token(fd) ==> lookup(final(self).rows(), k) == lookup(
                old(self).rows(),
                k,
            ),
    {
        let token = fd_token(fd);
        self.subs.insert(token, Subscription::IO { userdata: 0, fd, read_event: false, write_event: false });
    }

    /// Stops tracking `fd`.
    pub fn delete(&mut self, fd: i32)
        ensures
            final(self).rows() == without_key(old(self).rows(), spec_fd_token(fd)),
            lookup(final(self).rows(), spec_fd_token(fd)) is None,
            forall|k: u64| k != spec_fd_token(fd) ==> lookup(final(self).rows(), k) == lookup(
                old(self).rows(),
                k,
            ),
    {
        let token = fd_token(fd);
        self.subs.remove(token);
    }

    /// Points `fd`'s subscription at one direction of interest.  A handle
    /// that is not tracked is left alone.
    pub fn modify(&mut self, fd: i32, interest: Interest)
        ensures
            lookup(old(self).rows(), spec_fd_token(fd)) is Some ==> final(self).rows()
                == without_key(old(self).rows(), spec_fd_token(fd)).push(
                (spec_fd_token(fd), io_sub_for(fd, interest)),
            ) && lookup(final(self).rows(), spec_fd_token(fd)) == Some(io_sub_for(fd, interest)),
            lookup(old(self).rows(), spec_fd_token(fd)) is None ==> final(self).rows() == old(
                self,
            ).rows(),
            forall|k: u64| k != spec_fd_token(fd) ==> lookup(final(self).rows(), k) == lookup(
                old(self).rows(),
                k,
            ),
    {
        let token = fd_token(fd);
        if self.subs.get(token).is_some() {
            let s = match interest {
                Interest::Read => Subscription::IO {
                    userdata: token,
                    fd,
                    read_event: true,
                    write_event: false,
                },
                Interest::Write => Subscription::IO {
                    userdata: token,
                    fd,
                    read_event: false,
                    write_event: true,
                },
            };
            self.subs.insert(token, s);
        }
    }

    /// The subscription list as it would be handed to the multiplexer.
    pub fn subscriptions(&self) -> (r: Vec<Subscription>)
        ensures
            r@ == values_of(self.rows()),
    {
        self.subs.values()
    }

    /// Blocks on the multiplexer with the current subscription set.  With
    /// nothing tracked it returns at once with no events; every event
    /// returned answers one of the tracked subscriptions.
    pub fn poll<M: HostPoll>(&self, mux: &mut M) -> (r: Result<Vec<Event>, i32>)
        ensures
            self.rows().len() == 0 ==> (r matches Ok(evs) && evs@.len() == 0),
            r matches Ok(evs) ==> forall|i: int|
                0 <= i < evs@.len() ==> event_claimed(values_of(self.rows()), #[trigger] evs@[i]),
    {
        let subs = self.subs.values();
        crate::poll::poll(mux, &subs)
    }
}

/// What `dispatch` does with one event: a readable report takes the waker
/// under the read key of its token, a writable one under the write key; any
/// other report, a token too large to be a handle token, or a key with no
/// stored waker is a registration bug.
pub open spec fn event_key(ev: Event) -> Option<u64> {
    match ev.event_type {
        EventType::Read => if ev.userdata <= u32::MAX as u64 {
            Some((ev.userdata * 2) as u64)
        } else {
            None
        },
        EventType::Write => if ev.userdata <= u32::MAX as u64 {
            Some((ev.userdata * 2 + 1) as u64)
        } else {
            None
        },
        _ => None,
    }
}

/// The wake table after a batch of events, with the wakers fired, in event
/// order; or the token of the first event that found no waker.
pub open spec fn dispatch_rec(w: Seq<(u64, usize)>, evs: Seq<Event>) -> Result<
    (Seq<(u64, usize)>, Seq<usize>),
    u64,
>
    decreases evs.len(),
{
    if evs.len() == 0 {
        Ok((w, Seq::empty()))
    } else {
        match event_key(evs[0]) {
            None => Err(evs[0].userdata),
            Some(k) => match lookup(w, k) {
                None => Err(evs[0].userdata),
                Some(id) => match dispatch_rec(without_key(w, k), evs.drop_first()) {
                    Ok((w2, ids)) => Ok((w2, seq![id] + ids)),
                    Err(u) => Err(u),
                },
            },
        }
    }
}

/// A possible outcome of one `wait`: a batch of events, each answering a
/// tracked subscription, whose dispatch removed the fired wakers and woke
/// `woken`.
pub open spec fn wait_outcome(
    r0: Reactor,
    wakers1: Seq<(u64, usize)>,
    woken: Seq<usize>,
    evs: Seq<Event>,
) -> bool {
    &&& forall|i: int| 0 <= i < evs.len() ==> event_claimed(values_of(r0.subs()), #[trigger] evs[i])
    &&& dispatch_rec(r0.wakers(), evs) == Ok::<(Seq<(u64, usize)>, Seq<usize>), u64>(
        (wakers1, woken),
    )
}

/// The reactor: the tracked subscription set and the wake table.
pub struct Reactor {
    poll: Poller,
    wakers_map: KeyTable<usize>,
}

impl Reactor {
    /// The wake table's entries.
    pub closed spec fn wakers(&self) -> Seq<(u64, usize)> {
        self.wakers_map.rows()
    }

    /// The subscription set's entries.
    pub closed spec fn subs(&self) -> Seq<(u64, Subscription)> {
        self.poll.rows()
    }

    /// The waker registered for one (handle, direction), if any.
    pub open spec fn waker_at(&self, fd: i32, interest: Interest) -> Option<usize> {
        lookup(self.wakers(), spec_fd_key(fd, interest))
    }

    pub fn new() -> (r: Self)
        ensures
            r.wakers() == Seq::<(u64, usize)>::empty(),
            r.subs() == Seq::<(u64, Subscription)>::empty(),
    {
        Reactor { poll: Poller::new(), wakers_map: KeyTable::new() }
    }

    /// The subscription list that the next wait will hand to the
    /// multiplexer.
    pub fn subscriptions(&self) -> (r: Vec<Subscription>)
        ensures
            r@ == values_of(self.subs()),
    {
        self.poll.subscriptions()
    }

    /// Begins tracking `fd` with no interest: no event fires for it until
    /// `modify` is called.
    pub fn add(&mut self, fd: i32)
        ensures
            final(self).wakers() == old(self).wakers(),
            final(self).subs() == without_key(old(self).subs(), spec_fd_token(fd)).push(
                (spec_fd_token(fd), idle_sub_for(fd)),
            ),
            lookup(final(self).subs(), spec_fd_token(fd)) == Some(idle_sub_for(fd)),
            forall|k: u64| k != spec_fd_token(fd) ==> lookup(final(self).subs(), k) == lookup(
                old(self).subs(),
                k,
            ),
    {
        self.poll.add(fd);
    }

    /// Drops all bookkeeping for `fd`: its subscription and both of its
    /// stored wakers.
    pub fn delete(&mut self, fd: i32)
        ensures
            final(self).wakers() == without_key(
                without_key(old(self).wakers(), spec_fd_key(fd, Interest::Read)),
                spec_fd_key(fd, Interest::Write),
            ),
            final(self).waker_at(fd, Interest::Read) is None,
            final(self).waker_at(fd, Interest::Write) is None,
            forall|k: u64|
                k != spec_fd_key(fd, Interest::Read) && k != spec_fd_key(fd, Interest::Write)
                    ==> lookup(final(self).wakers(), k) == lookup(old(self).wakers(), k),
            final(self).subs() == without_key(old(self).subs(), spec_fd_token(fd)),
            lookup(final(self).subs(), spec_fd_token(fd)) is None,
            forall|k: u64| k != spec_fd_token(fd) ==> lookup(final(self).subs(), k) == lookup(
                old(self).subs(),
                k,
            ),
    {
        let rk = fd_key(fd, Interest::Read);
        let wk = fd_key(fd, Interest::Write);
        self.wakers_map.remove(rk);
        self.wakers_map.remove(wk);
        self.poll.delete(fd);
        proof {
            crate::table::lemma_lookup_without_key(
                without_key(old(self).wakers(), spec_fd_key(fd, Interest::Read)),
                spec_fd_key(fd, Interest::Write),
                spec_fd_key(fd, Interest::Read),
            );
        }
    }

    /// Stores `waker` to fire on the next matching readiness of `fd`,
    /// replacing any waker stored for that (handle, direction) before, and
    /// points the handle's subscription at that direction.
    pub fn modify(&mut self, fd: i32, interest: Interest, waker: usize)
        ensures
            modify_effect(*old(self), *final(self), fd, interest, waker),
    {
        let k = fd_key(fd, interest);
        self.wakers_map.insert(k, waker);
        self.poll.modify(fd, interest);
    }

    /// Looks up and removes the stored waker of each event, in order, and
    /// hands back the wakers to fire.  An event with no stored waker stops
    /// the batch and surfaces as the loud `NoWaker` failure.
    pub fn dispatch(&mut self, events: &Vec<Event>) -> (r: Result<Vec<usize>, RtError>)
        ensures
            final(self).subs() == old(self).subs(),
            r matches Ok(woken) ==> dispatch_rec(old(self).wakers(), events@) == Ok::<
                (Seq<(u64, usize)>, Seq<usize>),
                u64,
            >((final(self).wakers(), woken@)),
            r matches Err(e) ==> (e matches RtError::NoWaker(u) && dispatch_rec(
                old(self).wakers(),
                events@,
            ) == Err::<(Seq<(u64, usize)>, Seq<usize>), u64>(u)),
    {
        let ghost w0 = self.wakers();
        let mut woken: Vec<usize> = Vec::new();
        let mut i: usize = 0;
        proof {
            assert(events@.skip(0) =~= events@);
            match dispatch_rec(w0, events@) {
                Ok(p) => {
                    assert(Seq::<usize>::empty() + p.1 =~= p.1);
                },
                Err(_) => {},
            }
        }
        while i < events.len()
            invariant
                i <= events@.len(),
                w0 == old(self).wakers(),
                self.subs() == old(self).subs(),
                dispatch_rec(w0, events@) == match dispatch_rec(
                    self.wakers(),
                    events@.skip(i as int),
                ) {
                    Ok((w2, ids)) => Ok::<(Seq<(u64, usize)>, Seq<usize>), u64>((w2, woken@ + ids)),
                    Err(u) => Err::<(Seq<(u64, usize)>, Seq<usize>), u64>(u),
                },
            decreases events@.len() - i,
        {
            let ev = events[i];
            let ghost w_before = self.wakers();
            let ghost woken_before = woken@;
            proof {
                assert(events@.skip(i as int)[0] == ev);
                assert(events@.skip(i as int).drop_first() =~= events@.skip(i + 1 as int));
            }
            let key: u64 = match ev.event_type {
                EventType::Read => {
                    if ev.userdata <= u32::MAX as u64 {
                        ev.userdata * 2
                    } else {
                        proof {
                            assert(event_key(ev) is None);
                            assert(dispatch_rec(self.wakers(), events@.skip(i as int)) == Err::<
                                (Seq<(u64, usize)>, Seq<usize>),
                                u64,
                            >(ev.userdata));
                        }
                        return Err(RtError::NoWaker(ev.userdata));
                    }
                },
                EventType::Write => {
                    if ev.userdata <= u32::MAX as u64 {
                        ev.userdata * 2 + 1
                    } else {
                        proof {
                            assert(event_key(ev) is None);
                            assert(dispatch_rec(self.wakers(), events@.skip(i as int)) == Err::<
                                (Seq<(u64, usize)>, Seq<usize>),
                                u64,
                            >(ev.userdata));
                        }
                        return Err(RtError::NoWaker(ev.userdata));
                    }
                },
                _ => {
                    proof {
                        assert(event_key(ev) is None);
                        assert(dispatch_rec(self.wakers(), events@.skip(i as int)) == Err::<
                            (Seq<(u64, usize)>, Seq<usize>),
                            u64,
                        >(ev.userdata));
                    }
                    return Err(RtError::NoWaker(ev.userdata));
                },
            };
            proof {
                assert(event_key(ev) == Some(key));
            }
            match self.wakers_map.remove(key) {
                Some(id) => {
                    woken.push(id);
                    proof {
                        assert(lookup(w_before, key) == Some(id));
                        assert(self.wakers() == without_key(w_before, key));
                        let rest = dispatch_rec(self.wakers(), events@.skip(i + 1 as int));
                        match rest {
                            Ok(p) => {
                                assert(woken_before + (seq![id] + p.1) =~= woken@ + p.1);
                            },
                            Err(_) => {},
                        }
                        assert(dispatch_rec(w_before, events@.skip(i as int)) == match rest {
                            Ok(p) => Ok::<(Seq<(u64, usize)>, Seq<usize>), u64>(
                                (p.0, seq![id] + p.1),
                            ),
                            Err(u) => Err::<(Seq<(u64, usize)>, Seq<usize>), u64>(u),
                        });
                    }
                },
                None => {
                    proof {
                        assert(lookup(w_before, key) is None);
                        assert(dispatch_rec(w_before, events@.skip(i as int)) == Err::<
                            (Seq<(u64, usize)>, Seq<usize>),
                            u64,
                        >(ev.userdata));
                    }
                    return Err(RtError::NoWaker(ev.userdata));
                },
            }
            i = i + 1;
        }
        proof {
            assert(events@.skip(events@.len() as int) =~= Seq::<Event>::empty());
            match dispatch_rec(self.wakers(), events@.skip(events@.len() as int)) {
                Ok(p) => {
                    assert(woken@ + p.1 =~= woken@);
                },
                Err(_) => {},
            }
        }
        Ok(woken)
    }

    /// Builds the subscription set, blocks on the multiplexer, and wakes the
    /// waker of every event that fired, removing it from the table.  With
    /// nothing tracked it returns at once, waking nobody and changing
    /// nothing.  A host failure propagates unchanged; an event with no
    /// stored waker is the loud `NoWaker` failure.
    pub fn wait<M: HostPoll>(&mut self, mux: &mut M) -> (r: Result<Vec<usize>, RtError>)
        ensures
            final(self).subs() == old(self).subs(),
            old(self).subs().len() == 0 ==> match r {
                Ok(woken) => woken@.len() == 0 && final(self).wakers() == old(self).wakers(),
                Err(_) => false,
            },
            r matches Ok(woken) ==> exists|evs: Seq<Event>|
                wait_outcome(*old(self), final(self).wakers(), woken@, evs),
    {
        let events = match self.poll.poll(mux) {
            Ok(events) => events,
            Err(n) => {
                return Err(RtError::Host(n));
            },
        };
        let r = self.dispatch(&events);
        match r {
            Ok(woken) => {
                proof {
                    assert(wait_outcome(*old(self), self.wakers(), woken@, events@));
                }
                Ok(woken)
            },
            Err(e) => Err(e),
        }
    }
}

/// What one registration does: the new waker stands at the (handle,
/// direction) key, every other key is untouched, and the handle's
/// subscription—if the handle is tracked—now asks for exactly that
/// direction.
pub open spec fn modify_effect(
    r0: Reactor,
    r1: Reactor,
    fd: i32,
    interest: Interest,
    waker: usize,
) -> bool {
    &&& r1.wakers() == without_key(r0.wakers(), spec_fd_key(fd, interest)).push(
        (spec_fd_key(fd, interest), waker),
    )
    &&& lookup(r1.wakers(), spec_fd_key(fd, interest)) == Some(waker)
    &&& forall|k: u64|
        k != spec_fd_key(fd, interest) ==> lookup(r1.wakers(), k) == lookup(r0.wakers(), k)
    &&& lookup(r0.subs(), spec_fd_token(fd)) is Some ==> lookup(r1.subs(), spec_fd_token(fd))
        == Some(io_sub_for(fd, interest))
    &&& lookup(r0.subs(), spec_fd_token(fd)) is None ==> r1.subs() == r0.subs()
    &&& forall|k: u64| k != spec_fd_token(fd) ==> lookup(r1.subs(), k) == lookup(r0.subs(), k)
}

/// Every waker a dispatch hands out was stored in the table it started
/// from.
pub proof fn lemma_dispatch_woken(
    w: Seq<(u64, usize)>,
    evs: Seq<Event>,
    w2: Seq<(u64, usize)>,
    ids: Seq<usize>,
)
    requires
        dispatch_rec(w, evs) == Ok::<(Seq<(u64, usize)>, Seq<usize>), u64>((w2, ids)),
    ensures
        forall|x: usize| #[trigger] ids.contains(x) ==> exists|k: u64| lookup(w, k) == Some(x),
    decreases evs.len(),
{
    if evs.len() == 0 {
    } else {
        match event_key(evs[0]) {
            None => {
                assert(false);
            },
            Some(k0) => {
                match lookup(w, k0) {
                    None => {
                        assert(false);
                    },
                    Some(id0) => {
                        match dispatch_rec(without_key(w, k0), evs.drop_first()) {
                            Ok(p) => {
                                lemma_dispatch_woken(
                                    without_key(w, k0),
                                    evs.drop_first(),
                                    p.0,
                                    p.1,
                                );
                                assert(ids == seq![id0] + p.1);
                                assert forall|x: usize| #[trigger] ids.contains(x) implies exists|
                                    k: u64,
                                | lookup(w, k) == Some(x) by {
                                    let j = choose|j: int|
                                        0 <= j < ids.len() && #[trigger] ids[j] == x;
                                    if j == 0 {
                                        assert(lookup(w, k0) == Some(x));
                                    } else {
                                        assert(p.1[j - 1] == x);
                                        assert(p.1.contains(x));
                                        let k = choose|k: u64|
                                            lookup(without_key(w, k0), k) == Some(x);
                                        crate::table::lemma_lookup_without_key(w, k0, k);
                                        assert(k != k0);
                                        assert(lookup(w, k) == Some(x));
                                    }
                                }
                            },
                            Err(_) => {
                                assert(false);
                            },
                        }
                    },
                }
            },
        }
    }
}

/// Registering the same (handle, direction) twice keeps only the latest
/// waker: after storing `a` and then `b` for one key, the table holds `b`,
/// and an event firing that key wakes `b` alone.
pub proof fn latest_waker_wins(
    r0: Reactor,
    r1: Reactor,
    r2: Reactor,
    fd: i32,
    interest: Interest,
    a: usize,
    b: usize,
    ev: Event,
)
    requires
        modify_effect(r0, r1, fd, interest, a),
        modify_effect(r1, r2, fd, interest, b),
        event_key(ev) == Some(spec_fd_key(fd, interest)),
    ensures
        r2.waker_at(fd, interest) == Some(b),
        dispatch_rec(r2.wakers(), seq![ev]) == Ok::<(Seq<(u64, usize)>, Seq<usize>), u64>(
            (without_key(r2.wakers(), spec_fd_key(fd, interest)), seq![b]),
        ),
{
    let k = spec_fd_key(fd, interest);
    assert(lookup(r2.wakers(), k) == Some(b));
    let evs = seq![ev];
    assert(evs[0] == ev);
    assert(evs.drop_first() =~= Seq::<Event>::empty());
    assert(dispatch_rec(without_key(r2.wakers(), k), evs.drop_first()) == Ok::<
        (Seq<(u64, usize)>, Seq<usize>),
        u64,
    >((without_key(r2.wakers(), k), Seq::empty())));
    assert(seq![b] + Seq::<usize>::empty() =~= seq![b]);
}

} // verus!
