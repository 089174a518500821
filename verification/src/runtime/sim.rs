//! A deterministic host for driving the runtime without an operating
//! system: a multiplexer with a fixed readiness set and clock, and a
//! scripted non-blocking socket.  Both are verified against the same
//! contracts the real host is trusted for, so every scheduling path can be
//! exercised and checked end to end.

use crate::net::{Shutdown, SockAddr, SockAddrV4};
use crate::poll::{
    raw_event_matches, sub_event_compatible, HostPoll, RawEvent, RawEventKind, RawSubscription,
    RawSubscriptionKind,
};
use crate::runtime::tcp::{IoOutcome, NonBlockingSocket};
use vstd::prelude::*;

verus! {

pub fn contains_u32(v: &Vec<u32>, x: u32) -> (b: bool)
    ensures
        b == v@.contains(x),
{
    let mut i: usize = 0;
    while i < v.len()
        invariant
            i <= v@.len(),
            forall|j: int| 0 <= j < i ==> v@[j] != x,
        decreases v@.len() - i,
    {
        if v[i] == x {
            return true;
        }
        i = i + 1;
    }
    proof {
        assert(!v@.contains(x)) by {
            if v@.contains(x) {
                let j = choose|j: int| 0 <= j < v@.len() && v@[j] == x;
            }
        }
    }
    false
}

pub fn contains_u64(v: &Vec<u64>, x: u64) -> (b: bool)
    ensures
        b == v@.contains(x),
{
    let mut i: usize = 0;
    while i < v.len()
        invariant
            i <= v@.len(),
            forall|j: int| 0 <= j < i ==> v@[j] != x,
        decreases v@.len() - i,
    {
        if v[i] == x {
            return true;
        }
        i = i + 1;
    }
    proof {
        assert(!v@.contains(x)) by {
            if v@.contains(x) {
                let j = choose|j: int| 0 <= j < v@.len() && v@[j] == x;
            }
        }
    }
    false
}

/// The event a stub subscription fires with: no error, no hang-up.
pub open spec fn stub_ev(userdata: u64, kind: RawEventKind) -> RawEvent {
    RawEvent { userdata, kind, error: 0, hangup: false }
}

/// What the stub host reports for a subscription list, in order: a
/// descriptor record fires when its handle is in the readiness set, a clock
/// record when its deadline is at or before the stub's clock, and once a
/// token has fired, later records with the same token are suppressed within
/// the call.
pub open spec fn stub_events(
    rr: Seq<u32>,
    rw: Seq<u32>,
    now: u64,
    subs: Seq<RawSubscription>,
    fired: Seq<u64>,
) -> Seq<RawEvent>
    decreases subs.len(),
{
    if subs.len() == 0 {
        Seq::empty()
    } else {
        let s = subs[0];
        let rest = subs.drop_first();
        if fired.contains(s.userdata) {
            stub_events(rr, rw, now, rest, fired)
        } else {
            match s.kind {
                RawSubscriptionKind::FdRead { fd } => if rr.contains(fd) {
                    seq![stub_ev(s.userdata, RawEventKind::FdRead)] + stub_events(
                        rr,
                        rw,
                        now,
                        rest,
                        fired.push(s.userdata),
                    )
                } else {
                    stub_events(rr, rw, now, rest, fired)
                },
                RawSubscriptionKind::FdWrite { fd } => if rw.contains(fd) {
                    seq![stub_ev(s.userdata, RawEventKind::FdWrite)] + stub_events(
                        rr,
                        rw,
                        now,
                        rest,
                        fired.push(s.userdata),
                    )
                } else {
                    stub_events(rr, rw, now, rest, fired)
                },
                RawSubscriptionKind::Clock { timeout } => if timeout <= now {
                    seq![stub_ev(s.userdata, RawEventKind::Clock)] + stub_events(
                        rr,
                        rw,
                        now,
                        rest,
                        fired.push(s.userdata),
                    )
                } else {
                    stub_events(rr, rw, now, rest, fired)
                },
            }
        }
    }
}

/// Every stub event answers one of the subscriptions it was computed from.
pub proof fn lemma_stub_matches(
    rr: Seq<u32>,
    rw: Seq<u32>,
    now: u64,
    subs: Seq<RawSubscription>,
    fired: Seq<u64>,
)
    ensures
        forall|j: int|
            0 <= j < stub_events(rr, rw, now, subs, fired).len() ==> raw_event_matches(
                subs,
                #[trigger] stub_events(rr, rw, now, subs, fired)[j],
            ),
    decreases subs.len(),
{
    if subs.len() > 0 {
        let s = subs[0];
        let rest = subs.drop_first();
        let evs = stub_events(rr, rw, now, subs, fired);
        assert forall|j: int| 0 <= j < evs.len() implies raw_event_matches(
            subs,
            #[trigger] evs[j],
        ) by {
            let emitted: Option<RawEvent> = if fired.contains(s.userdata) {
                None
            } else {
                match s.kind {
                    RawSubscriptionKind::FdRead { fd } => if rr.contains(fd) {
                        Some(stub_ev(s.userdata, RawEventKind::FdRead))
                    } else {
                        None
                    },
                    RawSubscriptionKind::FdWrite { fd } => if rw.contains(fd) {
                        Some(stub_ev(s.userdata, RawEventKind::FdWrite))
                    } else {
                        None
                    },
                    RawSubscriptionKind::Clock { timeout } => if timeout <= now {
                        Some(stub_ev(s.userdata, RawEventKind::Clock))
                    } else {
                        None
                    },
                }
            };
            match emitted {
                Some(e0) => {
                    let fired2 = fired.push(s.userdata);
                    lemma_stub_matches(rr, rw, now, rest, fired2);
                    assert(evs == seq![e0] + stub_events(rr, rw, now, rest, fired2));
                    if j == 0 {
                        assert(evs[0] == e0);
                        assert(sub_event_compatible(subs[0], e0));
                    } else {
                        assert(evs[j] == stub_events(rr, rw, now, rest, fired2)[j - 1]);
                        assert(raw_event_matches(rest, evs[j]));
                        let jj = choose|jj: int|
                            0 <= jj < rest.len() && sub_event_compatible(
                                #[trigger] rest[jj],
                                evs[j],
                            );
                        assert(subs[jj + 1] == rest[jj]);
                        assert(sub_event_compatible(subs[jj + 1], evs[j]));
                    }
                },
                None => {
                    lemma_stub_matches(rr, rw, now, rest, fired);
                    assert(evs == stub_events(rr, rw, now, rest, fired));
                    assert(raw_event_matches(rest, evs[j]));
                    let jj = choose|jj: int|
                        0 <= jj < rest.len() && sub_event_compatible(#[trigger] rest[jj], evs[j]);
                    assert(subs[jj + 1] == rest[jj]);
                    assert(sub_event_compatible(subs[jj + 1], evs[j]));
                },
            }
        }
    }
}

/// A multiplexer with a fixed readiness set and a fixed clock: handles in
/// `ready_read` are readable, handles in `ready_write` are writable, and
/// the time is always `now`.  With `fail` set, every wait reports that host
/// error instead.
pub struct StubHost {
    ready_read: Vec<u32>,
    ready_write: Vec<u32>,
    now: u64,
    fail: Option<i32>,
}

impl StubHost {
    pub closed spec fn reads_ready(&self) -> Seq<u32> {
        self.ready_read@
    }

    pub closed spec fn writes_ready(&self) -> Seq<u32> {
        self.ready_write@
    }

    pub closed spec fn clock(&self) -> u64 {
        self.now
    }

    pub closed spec fn failure(&self) -> Option<i32> {
        self.fail
    }

    /// A host where nothing is ever ready and the clock stands at zero.
    pub fn idle() -> (h: Self)
        ensures
            h.reads_ready() == Seq::<u32>::empty(),
            h.writes_ready() == Seq::<u32>::empty(),
            h.clock() == 0,
            h.failure() is None,
    {
        StubHost { ready_read: Vec::new(), ready_write: Vec::new(), now: 0, fail: None }
    }

    pub fn new(ready_read: Vec<u32>, ready_write: Vec<u32>, now: u64) -> (h: Self)
        ensures
            h.reads_ready() == ready_read@,
            h.writes_ready() == ready_write@,
            h.clock() == now,
            h.failure() is None,
    {
        StubHost { ready_read, ready_write, now, fail: None }
    }

    /// A host whose wait primitive always fails with `err`.
    pub fn failing(err: i32) -> (h: Self)
        ensures
            h.failure() == Some(err),
    {
        StubHost { ready_read: Vec::new(), ready_write: Vec::new(), now: 0, fail: Some(err) }
    }

    fn collect(&self, subs: &Vec<RawSubscription>, i: usize, fired: Vec<u64>) -> (r: Vec<RawEvent>)
        requires
            i <= subs@.len(),
        ensures
            r@ == stub_events(
                self.reads_ready(),
                self.writes_ready(),
                self.clock(),
                subs@.skip(i as int),
                fired@,
            ),
        decreases subs@.len() - i,
    {
        if i == subs.len() {
            proof {
                assert(subs@.skip(i as int) =~= Seq::<RawSubscription>::empty());
            }
            Vec::new()
        } else {
            let s = subs[i];
            proof {
                assert(subs@.skip(i as int)[0] == s);
                assert(subs@.skip(i as int).drop_first() =~= subs@.skip(i + 1 as int));
            }
            if contains_u64(&fired, s.userdata) {
                self.collect(subs, i + 1, fired)
            } else {
                let hit: Option<RawEventKind> = match s.kind {
                    RawSubscriptionKind::FdRead { fd } => {
                        if contains_u32(&self.ready_read, fd) {
                            Some(RawEventKind::FdRead)
                        } else {
                            None
                        }
                    },
                    RawSubscriptionKind::FdWrite { fd } => {
                        if contains_u32(&self.ready_write, fd) {
                            Some(RawEventKind::FdWrite)
                        } else {
                            None
                        }
                    },
                    RawSubscriptionKind::Clock { timeout } => {
                        if timeout <= self.now {
                            Some(RawEventKind::Clock)
                        } else {
                            None
                        }
                    },
                };
                match hit {
                    Some(kind) => {
                        let mut fired2 = fired;
                        fired2.push(s.userdata);
                        let rest = self.collect(subs, i + 1, fired2);
                        let mut r = rest;
                        r.insert(0, RawEvent { userdata: s.userdata, kind, error: 0, hangup: false });
                        proof {
                            assert(r@ =~= seq![
                                stub_ev(s.userdata, kind),
                            ] + stub_events(
                                self.reads_ready(),
                                self.writes_ready(),
                                self.clock(),
                                subs@.skip(i + 1 as int),
                                fired@.push(s.userdata),
                            ));
                        }
                        r
                    },
                    None => self.collect(subs, i + 1, fired),
                }
            }
        }
    }
}

impl HostPoll for StubHost {
    /// Reports the readiness of the fixed sets against the subscriptions
    /// given, or the configured failure.
    fn wait_raw(&mut self, subs: &Vec<RawSubscription>) -> (r: Result<Vec<RawEvent>, i32>)
        ensures
            final(self).reads_ready() == old(self).reads_ready(),
            final(self).writes_ready() == old(self).writes_ready(),
            final(self).clock() == old(self).clock(),
            final(self).failure() == old(self).failure(),
            old(self).failure() matches Some(e) ==> r == Err::<Vec<RawEvent>, i32>(e),
            old(self).failure() is None ==> (r matches Ok(evs) && evs@ == stub_events(
                old(self).reads_ready(),
                old(self).writes_ready(),
                old(self).clock(),
                subs@,
                Seq::empty(),
            )),
    {
        if let Some(e) = self.fail {
            return Err(e);
        }
        let events = self.collect(subs, 0, Vec::new());
        proof {
            assert(subs@.skip(0) =~= subs@);
            lemma_stub_matches(
                self.reads_ready(),
                self.writes_ready(),
                self.clock(),
                subs@,
                Seq::empty(),
            );
        }
        Ok(events)
    }
}

/// One scripted answer to a read attempt: bytes arrive, the read would
/// block, or it fails.
#[derive(Debug, Clone)]
pub enum ReadStep {
    Data(Vec<u8>),
    Block,
    Fail(i32),
}

/// One scripted answer to a write attempt: up to `n` bytes are accepted,
/// the write would block, or it fails.
#[derive(Clone, Copy, Debug)]
pub enum WriteStep {
    Take(usize),
    Block,
    Fail(i32),
}

pub open spec fn no_read_blocks(reads: Seq<ReadStep>) -> bool {
    forall|i: int| 0 <= i < reads.len() ==> !((#[trigger] reads[i]) is Block)
}

pub open spec fn no_write_blocks(writes: Seq<WriteStep>) -> bool {
    forall|i: int| 0 <= i < writes.len() ==> !((#[trigger] writes[i]) is Block)
}

/// `b` with `d` written over its front.
pub open spec fn prefix_filled(b: Seq<u8>, d: Seq<u8>) -> Seq<u8> {
    Seq::new(b.len(), |i: int| if i < d.len() {
        d[i]
    } else {
        b[i]
    })
}

/// A non-blocking socket that answers from scripts: each read consumes the
/// next read step, each write the next write step, and every byte a write
/// accepts is logged.  An exhausted read script reads as end of stream; an
/// exhausted write script accepts everything.
pub struct ScriptedSocket {
    fd: i32,
    reads: Vec<ReadStep>,
    writes: Vec<WriteStep>,
    sent: Vec<u8>,
    addr: SockAddr,
}

impl ScriptedSocket {
    pub closed spec fn reads_of(&self) -> Seq<ReadStep> {
        self.reads@
    }

    pub closed spec fn writes_of(&self) -> Seq<WriteStep> {
        self.writes@
    }

    pub closed spec fn sent_of(&self) -> Seq<u8> {
        self.sent@
    }

    pub closed spec fn addr_of(&self) -> SockAddr {
        self.addr
    }

    pub fn new(fd: i32, reads: Vec<ReadStep>, writes: Vec<WriteStep>) -> (s: Self)
        ensures
            s.fd_spec() == fd,
            s.reads_of() == reads@,
            s.writes_of() == writes@,
            s.sent_of() == Seq::<u8>::empty(),
    {
        ScriptedSocket {
            fd,
            reads,
            writes,
            sent: Vec::new(),
            addr: SockAddr::V4(SockAddrV4 { ip: [127, 0, 0, 1], port: 0 }),
        }
    }

    /// The bytes every write accepted, in order.
    pub fn sent_bytes(&self) -> (r: &Vec<u8>)
        ensures
            r@ == self.sent_of(),
    {
        &self.sent
    }
}

impl NonBlockingSocket for ScriptedSocket {
    closed spec fn fd_spec(&self) -> i32 {
        self.fd
    }

    closed spec fn never_blocks(&self) -> bool {
        no_read_blocks(self.reads@) && no_write_blocks(self.writes@)
    }

    fn raw_fd(&self) -> (fd: i32) {
        self.fd
    }

    fn connect(&mut self, addr: &SockAddr) -> (r: Result<(), i32>)
        ensures
            r is Ok,
            *final(self) == *old(self),
    {
        Ok(())
    }

    fn write_nb(&mut self, buf: &Vec<u8>) -> (r: IoOutcome)
        ensures
            final(self).reads_of() == old(self).reads_of(),
            old(self).writes_of().len() == 0 ==> (r == IoOutcome::Done(buf@.len() as usize)
                && final(self).sent_of() == old(self).sent_of() + buf@ && final(self).writes_of()
                == old(self).writes_of()),
            old(self).writes_of().len() > 0 ==> final(self).writes_of() == old(
                self,
            ).writes_of().drop_first() && match old(self).writes_of()[0] {
                WriteStep::Take(cap) => r == IoOutcome::Done(
                    (if cap <= buf@.len() {
                        cap as int
                    } else {
                        buf@.len() as int
                    }) as usize,
                ) && final(self).sent_of() == old(self).sent_of() + buf@.take(
                    if cap <= buf@.len() {
                        cap as int
                    } else {
                        buf@.len() as int
                    },
                ),
                WriteStep::Block => r == IoOutcome::Block && final(self).sent_of() == old(
                    self,
                ).sent_of(),
                WriteStep::Fail(e) => r == IoOutcome::Fail(e) && final(self).sent_of() == old(
                    self,
                ).sent_of(),
            },
    {
        if self.writes.len() == 0 {
            let mut j: usize = 0;
            while j < buf.len()
                invariant
                    j <= buf@.len(),
                    self.sent@ == old(self).sent@ + buf@.take(j as int),
                    self.reads@ == old(self).reads@,
                    self.writes@ == old(self).writes@,
                    self.fd == old(self).fd,
                    self.addr == old(self).addr,
                decreases buf@.len() - j,
            {
                self.sent.push(buf[j]);
                proof {
                    assert(self.sent@ =~= old(self).sent@ + buf@.take(j + 1 as int));
                }
                j = j + 1;
            }
            proof {
                assert(buf@.take(buf@.len() as int) =~= buf@);
            }
            return IoOutcome::Done(buf.len());
        }
        let step = self.writes.remove(0);
        proof {
            assert(self.writes@ =~= old(self).writes@.drop_first());
            if no_write_blocks(old(self).writes@) {
                assert forall|i: int| 0 <= i < self.writes@.len() implies !((
                #[trigger] self.writes@[i]) is Block) by {
                    assert(self.writes@[i] == old(self).writes@[i + 1]);
                }
            }
        }
        match step {
            WriteStep::Take(cap) => {
                let n: usize = if cap <= buf.len() {
                    cap
                } else {
                    buf.len()
                };
                let mut j: usize = 0;
                while j < n
                    invariant
                        j <= n,
                        n <= buf@.len(),
                        self.sent@ == old(self).sent@ + buf@.take(j as int),
                        self.reads@ == old(self).reads@,
                        self.writes@ == old(self).writes@.drop_first(),
                        self.fd == old(self).fd,
                        self.addr == old(self).addr,
                    decreases n - j,
                {
                    self.sent.push(buf[j]);
                    proof {
                        assert(self.sent@ =~= old(self).sent@ + buf@.take(j + 1 as int));
                    }
                    j = j + 1;
                }
                IoOutcome::Done(n)
            },
            WriteStep::Block => IoOutcome::Block,
            WriteStep::Fail(e) => IoOutcome::Fail(e),
        }
    }

    fn read_nb(&mut self, buf: &mut Vec<u8>) -> (r: IoOutcome)
        ensures
            final(self).writes_of() == old(self).writes_of(),
            final(self).sent_of() == old(self).sent_of(),
            old(self).reads_of().len() == 0 ==> (r == IoOutcome::Done(0) && final(buf)@ == old(
                buf,
            )@ && final(self).reads_of() == old(self).reads_of()),
            old(self).reads_of().len() > 0 ==> final(self).reads_of() == old(
                self,
            ).reads_of().drop_first() && match old(self).reads_of()[0] {
                ReadStep::Data(d) => r == IoOutcome::Done(
                    (if d@.len() <= old(buf)@.len() {
                        d@.len() as int
                    } else {
                        old(buf)@.len() as int
                    }) as usize,
                ) && final(buf)@ == prefix_filled(old(buf)@, d@.take(
                    if d@.len() <= old(buf)@.len() {
                        d@.len() as int
                    } else {
                        old(buf)@.len() as int
                    },
                )),
                ReadStep::Block => r == IoOutcome::Block && final(buf)@ == old(buf)@,
                ReadStep::Fail(e) => r == IoOutcome::Fail(e) && final(buf)@ == old(buf)@,
            },
    {
        if self.reads.len() == 0 {
            return IoOutcome::Done(0);
        }
        let step = self.reads.remove(0);
        proof {
            assert(self.reads@ =~= old(self).reads@.drop_first());
            if no_read_blocks(old(self).reads@) {
                assert forall|i: int| 0 <= i < self.reads@.len() implies !((
                #[trigger] self.reads@[i]) is Block) by {
                    assert(self.reads@[i] == old(self).reads@[i + 1]);
                }
            }
        }
        match step {
            ReadStep::Data(d) => {
                let n: usize = if d.len() <= buf.len() {
                    d.len()
                } else {
                    buf.len()
                };
                let mut j: usize = 0;
                while j < n
                    invariant
                        j <= n,
                        n <= buf@.len(),
                        n <= d@.len(),
                        buf@.len() == old(buf)@.len(),
                        forall|x: int| 0 <= x < j ==> buf@[x] == d@[x],
                        forall|x: int| j <= x < buf@.len() ==> buf@[x] == old(buf)@[x],
                    decreases n - j,
                {
                    let slot = vstd::std_specs::vec::vec_index_mut(buf, j);
                    *slot = d[j];
                    j = j + 1;
                }
                proof {
                    assert(final(buf)@ =~= prefix_filled(old(buf)@, d@.take(n as int)));
                }
                IoOutcome::Done(n)
            },
            ReadStep::Block => IoOutcome::Block,
            ReadStep::Fail(e) => IoOutcome::Fail(e),
        }
    }

    fn shutdown(&mut self, how: Shutdown) -> (r: Result<(), i32>)
        ensures
            r is Ok,
            *final(self) == *old(self),
    {
        Ok(())
    }

    fn peer_addr(&self) -> (r: Result<SockAddr, i32>)
        ensures
            r == Ok::<SockAddr, i32>(self.addr_of()),
    {
        Ok(self.addr)
    }

    fn local_addr(&self) -> (r: Result<SockAddr, i32>)
        ensures
            r == Ok::<SockAddr, i32>(self.addr_of()),
    {
        Ok(self.addr)
    }

    fn set_nonblocking(&mut self, nonblocking: bool) -> (r: Result<(), i32>)
        ensures
            r is Ok,
            *final(self) == *old(self),
    {
        Ok(())
    }
}

/// A deadline already in the past, with no readiness for the handle,
/// reports a timeout and nothing else: the stub answers a single
/// read-with-deadline subscription whose handle is not readable and whose
/// deadline is at or before the clock with exactly one clock event.
pub proof fn past_deadline_reports_timeout(
    rr: Seq<u32>,
    rw: Seq<u32>,
    now: u64,
    fd: u32,
    userdata: u64,
    deadline: u64,
)
    requires
        !rr.contains(fd),
        deadline <= now,
    ensures
        stub_events(
            rr,
            rw,
            now,
            seq![
                (RawSubscription { userdata, kind: (RawSubscriptionKind::FdRead { fd }) }),
                (RawSubscription { userdata, kind: (RawSubscriptionKind::Clock { timeout: deadline }) }),
            ],
            Seq::empty(),
        ) == seq![stub_ev(userdata, RawEventKind::Clock)],
{
    reveal_with_fuel(stub_events, 4);
    let subs = seq![
        (RawSubscription { userdata, kind: (RawSubscriptionKind::FdRead { fd }) }),
        (RawSubscription { userdata, kind: (RawSubscriptionKind::Clock { timeout: deadline }) }),
    ];
    assert(!Seq::<u64>::empty().contains(userdata));
    assert(subs.drop_first() =~= seq![
        (RawSubscription { userdata, kind: (RawSubscriptionKind::Clock { timeout: deadline }) }),
    ]);
    assert(subs.drop_first().drop_first() =~= Seq::<RawSubscription>::empty());
    assert(stub_events(rr, rw, now, subs, Seq::empty()) =~= seq![
        stub_ev(userdata, RawEventKind::Clock),
    ]);
}

} // verus!
