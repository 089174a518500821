//! The async adapter: a stream over any non-blocking socket that registers
//! interest and suspends on would-block.
//!
//! The suspension contract is the one the rest of the runtime composes
//! with: attempt the operation once; on success or on any failure other
//! than would-block, report `Ready` and leave the reactor alone; on
//! would-block, register (handle, direction, waker) with the reactor and
//! report `Pending`.

use crate::net::{Shutdown, SockAddr};
use crate::runtime::reactor::{idle_sub_for, modify_effect, spec_fd_token, Interest, Reactor};
use crate::table::lookup;
use vstd::prelude::*;

verus! {

/// The ternary outcome of one non-blocking operation: it moved `n` bytes,
/// it would block, or it failed with a host error code.
#[derive(Clone, Copy, Debug, PartialEq, Eq, Structural)]
pub enum IoOutcome {
    Done(usize),
    Block,
    Fail(i32),
}

/// A non-blocking socket as the adapter sees it: a raw handle that is
/// stable for the object's lifetime, and ternary-outcome operations.  The
/// runtime composes with any implementation; a scripted one drives the
/// tests deterministically.
pub trait NonBlockingSocket: Sized {
    /// The raw handle.  An implementation outside the verifier may leave
    /// the default, which promises nothing about `raw_fd`.
    open spec fn fd_spec(&self) -> i32 {
        0
    }

    /// Whether this socket is certain never to report would-block.  The
    /// default promises nothing.
    open spec fn never_blocks(&self) -> bool {
        false
    }

    fn raw_fd(&self) -> (fd: i32)
        ensures
            fd == self.fd_spec(),
    ;

    fn connect(&mut self, addr: &SockAddr) -> (r: Result<(), i32>)
        ensures
            final(self).fd_spec() == old(self).fd_spec(),
            old(self).never_blocks() ==> final(self).never_blocks(),
    ;

    /// Attempts one non-blocking write out of `buf`.
    fn write_nb(&mut self, buf: &Vec<u8>) -> (r: IoOutcome)
        ensures
            final(self).fd_spec() == old(self).fd_spec(),
            old(self).never_blocks() ==> final(self).never_blocks(),
            r matches IoOutcome::Done(n) ==> n <= buf@.len(),
            old(self).never_blocks() ==> !(r is Block),
    ;

    /// Attempts one non-blocking read into `buf`, which keeps its length.
    fn read_nb(&mut self, buf: &mut Vec<u8>) -> (r: IoOutcome)
        ensures
            final(self).fd_spec() == old(self).fd_spec(),
            old(self).never_blocks() ==> final(self).never_blocks(),
            final(buf)@.len() == old(buf)@.len(),
            r matches IoOutcome::Done(n) ==> n <= old(buf)@.len(),
            old(self).never_blocks() ==> !(r is Block),
    ;

    fn shutdown(&mut self, how: Shutdown) -> (r: Result<(), i32>)
        ensures
            final(self).fd_spec() == old(self).fd_spec(),
            old(self).never_blocks() ==> final(self).never_blocks(),
    ;

    fn peer_addr(&self) -> (r: Result<SockAddr, i32>);

    fn local_addr(&self) -> (r: Result<SockAddr, i32>);

    fn set_nonblocking(&mut self, nonblocking: bool) -> (r: Result<(), i32>)
        ensures
            final(self).fd_spec() == old(self).fd_spec(),
            old(self).never_blocks() ==> final(self).never_blocks(),
    ;
}

/// What one poll of an adapter operation reports: the operation's own
/// result, or a suspension after registering with the reactor.
#[derive(Clone, Copy, Debug)]
pub enum OpPoll {
    Ready(Result<usize, i32>),
    Pending,
}

/// An asynchronous stream over a non-blocking socket.
pub struct AsyncTcpStream<S> {
    inner: S,
}

impl<S: NonBlockingSocket> AsyncTcpStream<S> {
    /// The stream's raw handle.
    pub closed spec fn fd(&self) -> i32 {
        self.inner.fd_spec()
    }

    /// Whether the underlying socket never reports would-block.
    pub closed spec fn never_blocks(&self) -> bool {
        self.inner.never_blocks()
    }

    /// The underlying socket, as a value, for specifications.
    pub closed spec fn device(&self) -> S {
        self.inner
    }

    /// Wraps a socket without touching the reactor.
    pub fn new(inner: S) -> (s: Self)
        ensures
            s.device() == inner,
            s.fd() == inner.fd_spec(),
            s.never_blocks() == inner.never_blocks(),
    {
        AsyncTcpStream { inner }
    }

    /// The underlying socket, for inspection.
    pub fn socket(&self) -> (r: &S)
        ensures
            *r == self.device(),
    {
        &self.inner
    }

    /// Connects the socket, switches it to non-blocking, and hands the
    /// handle to the reactor, tracked with no interest yet.  On failure the
    /// reactor is left untouched.
    pub fn connect_registered(&mut self, addr: &SockAddr, rt: &mut Reactor) -> (r: Result<
        (),
        i32,
    >)
        ensures
            final(self).fd() == old(self).fd(),
            old(self).never_blocks() ==> final(self).never_blocks(),
            r matches Ok(u) ==> lookup(final(rt).subs(), spec_fd_token(old(self).fd())) == Some(
                idle_sub_for(old(self).fd()),
            ) && final(rt).wakers() == old(rt).wakers(),
            r is Err ==> *final(rt) == *old(rt),
    {
        match self.inner.connect(addr) {
            Ok(u) => u,
            Err(e) => {
                return Err(e);
            },
        }
        match self.inner.set_nonblocking(true) {
            Ok(u) => u,
            Err(e) => {
                return Err(e);
            },
        }
        let fd = self.inner.raw_fd();
        rt.add(fd);
        Ok(())
    }

    /// Connects a socket and registers it with the reactor.
    pub fn connect(inner: S, addr: &SockAddr, rt: &mut Reactor) -> (r: Result<Self, i32>)
        ensures
            r matches Ok(s) ==> s.fd() == inner.fd_spec() && lookup(
                final(rt).subs(),
                spec_fd_token(inner.fd_spec()),
            ) == Some(idle_sub_for(inner.fd_spec())) && final(rt).wakers() == old(rt).wakers(),
            r is Err ==> *final(rt) == *old(rt),
    {
        let mut stream = AsyncTcpStream::new(inner);
        match stream.connect_registered(addr, rt) {
            Ok(u) => Ok(stream),
            Err(e) => Err(e),
        }
    }

    pub fn shutdown(&mut self, how: Shutdown) -> (r: Result<(), i32>)
        ensures
            final(self).fd() == old(self).fd(),
            old(self).never_blocks() ==> final(self).never_blocks(),
    {
        self.inner.shutdown(how)
    }

    /// Get peer address.
    pub fn peer_addr(&self) -> (r: Result<SockAddr, i32>) {
        self.inner.peer_addr()
    }

    /// Get local address.
    pub fn local_addr(&self) -> (r: Result<SockAddr, i32>) {
        self.inner.local_addr()
    }

    pub fn set_nonblocking(&mut self, nonblocking: bool) -> (r: Result<(), i32>)
        ensures
            final(self).fd() == old(self).fd(),
            old(self).never_blocks() ==> final(self).never_blocks(),
    {
        self.inner.set_nonblocking(nonblocking)
    }

    /// Attempts one write.  Anything but would-block is reported at once
    /// and leaves the reactor alone; would-block registers `waker` for
    /// writability on this handle and suspends.
    pub fn poll_write(&mut self, rt: &mut Reactor, waker: usize, buf: &Vec<u8>) -> (p: OpPoll)
        ensures
            final(self).fd() == old(self).fd(),
            old(self).never_blocks() ==> final(self).never_blocks(),
            p matches OpPoll::Ready(res) ==> *final(rt) == *old(rt) && (res matches Ok(n) ==> n
                <= buf@.len()),
            p is Pending ==> modify_effect(
                *old(rt),
                *final(rt),
                old(self).fd(),
                Interest::Write,
                waker,
            ),
            old(self).never_blocks() ==> !(p is Pending),
    {
        match self.inner.write_nb(buf) {
            IoOutcome::Done(n) => OpPoll::Ready(Ok(n)),
            IoOutcome::Fail(e) => OpPoll::Ready(Err(e)),
            IoOutcome::Block => {
                let fd = self.inner.raw_fd();
                rt.modify(fd, Interest::Write, waker);
                OpPoll::Pending
            },
        }
    }

    /// Attempts one read into `buf`, which keeps its length.  Anything but
    /// would-block is reported at once and leaves the reactor alone;
    /// would-block registers `waker` for readability on this handle and
    /// suspends.
    pub fn poll_read(&mut self, rt: &mut Reactor, waker: usize, buf: &mut Vec<u8>) -> (p: OpPoll)
        ensures
            final(self).fd() == old(self).fd(),
            old(self).never_blocks() ==> final(self).never_blocks(),
            final(buf)@.len() == old(buf)@.len(),
            p matches OpPoll::Ready(res) ==> *final(rt) == *old(rt) && (res matches Ok(n) ==> n
                <= old(buf)@.len()),
            p is Pending ==> modify_effect(
                *old(rt),
                *final(rt),
                old(self).fd(),
                Interest::Read,
                waker,
            ),
            old(self).never_blocks() ==> !(p is Pending),
    {
        match self.inner.read_nb(buf) {
            IoOutcome::Done(n) => OpPoll::Ready(Ok(n)),
            IoOutcome::Fail(e) => OpPoll::Ready(Err(e)),
            IoOutcome::Block => {
                let fd = self.inner.raw_fd();
                rt.modify(fd, Interest::Read, waker);
                OpPoll::Pending
            },
        }
    }
}

} // verus!
