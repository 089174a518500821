//! A task over the async adapter: a short program of socket operations,
//! advanced one suspension at a time.
//!
//! Each advance runs steps in order until one would block.  A blocked
//! write or read stores the task's waker with the reactor under its
//! direction and suspends; when that waker fires and the task runs again,
//! the same step is tried once more.  A failing step is logged and the
//! program moves on: per-operation errors belong to the task, not to the
//! runtime.

use crate::net::SockAddr;
use crate::runtime::executor::{Pollable, Step};
use crate::runtime::reactor::Reactor;
use crate::runtime::tcp::{AsyncTcpStream, NonBlockingSocket, OpPoll};
use vstd::prelude::*;

verus! {

/// One step of the program: connect, write these bytes, read up to this
/// many bytes, or yield once to the executor.
#[derive(Debug)]
pub enum IoStep {
    Connect(SockAddr),
    Write(Vec<u8>),
    Read(usize),
    Yield,
}

/// What one attempted step left in the task's log.
#[derive(Debug, PartialEq, Eq)]
pub enum IoRecord {
    Connected,
    Blocked,
    Wrote(usize),
    ReadData(Vec<u8>),
    StepFailed(i32),
    Yielded,
}

pub open spec fn no_yields(p: Seq<IoStep>) -> bool {
    forall|i: int| 0 <= i < p.len() ==> !((#[trigger] p[i]) is Yield)
}

/// A suspended computation: an async stream, the program to run over it,
/// and a log of what each step observed.
pub struct IoTask<S> {
    stream: AsyncTcpStream<S>,
    program: Vec<IoStep>,
    pc: usize,
    done: bool,
    log: Vec<IoRecord>,
}

impl<S: NonBlockingSocket> IoTask<S> {
    pub closed spec fn program_of(&self) -> Seq<IoStep> {
        self.program@
    }

    pub closed spec fn log_of(&self) -> Seq<IoRecord> {
        self.log@
    }

    pub closed spec fn stream_of(&self) -> AsyncTcpStream<S> {
        self.stream
    }

    pub fn new(socket: S, program: Vec<IoStep>) -> (t: Self)
        ensures
            !t.finished(),
            t.immediate() == (socket.never_blocks() && no_yields(program@)),
            t.log_of() == Seq::<IoRecord>::empty(),
            t.program_of() == program@,
    {
        IoTask {
            stream: AsyncTcpStream::new(socket),
            program,
            pc: 0,
            done: false,
            log: Vec::new(),
        }
    }

    /// What each attempted step observed, in order.
    pub fn log(&self) -> (r: &Vec<IoRecord>)
        ensures
            r@ == self.log_of(),
    {
        &self.log
    }

    pub fn is_done(&self) -> (b: bool)
        ensures
            b == self.finished(),
    {
        self.done
    }

    /// The stream, for inspection.
    pub fn stream(&self) -> (r: &AsyncTcpStream<S>)
        ensures
            *r == self.stream_of(),
    {
        &self.stream
    }
}

impl<S: NonBlockingSocket> Pollable for IoTask<S> {
    closed spec fn finished(&self) -> bool {
        self.done
    }

    closed spec fn immediate(&self) -> bool {
        self.stream.never_blocks() && no_yields(self.program@)
    }

    fn poll_task(&mut self, rt: &mut Reactor, waker: usize) -> (s: Step) {
        while self.pc < self.program.len()
            invariant
                !self.done,
                self.program@ == old(self).program@,
                old(self).immediate() ==> self.stream.never_blocks(),
                old(self).immediate() ==> no_yields(self.program@),
            decreases self.program@.len() - self.pc,
        {
            match &self.program[self.pc] {
                IoStep::Connect(addr) => {
                    match self.stream.connect_registered(addr, rt) {
                        Ok(u) => {
                            self.log.push(IoRecord::Connected);
                        },
                        Err(e) => {
                            self.log.push(IoRecord::StepFailed(e));
                        },
                    }
                    self.pc = self.pc + 1;
                },
                IoStep::Write(data) => {
                    match self.stream.poll_write(rt, waker, data) {
                        OpPoll::Ready(Ok(n)) => {
                            self.log.push(IoRecord::Wrote(n));
                            self.pc = self.pc + 1;
                        },
                        OpPoll::Ready(Err(e)) => {
                            self.log.push(IoRecord::StepFailed(e));
                            self.pc = self.pc + 1;
                        },
                        OpPoll::Pending => {
                            self.log.push(IoRecord::Blocked);
                            return Step::Pending;
                        },
                    }
                },
                IoStep::Read(cap) => {
                    let mut buf: Vec<u8> = vec![0u8; *cap];
                    match self.stream.poll_read(rt, waker, &mut buf) {
                        OpPoll::Ready(Ok(n)) => {
                            buf.truncate(n);
                            self.log.push(IoRecord::ReadData(buf));
                            self.pc = self.pc + 1;
                        },
                        OpPoll::Ready(Err(e)) => {
                            self.log.push(IoRecord::StepFailed(e));
                            self.pc = self.pc + 1;
                        },
                        OpPoll::Pending => {
                            self.log.push(IoRecord::Blocked);
                            return Step::Pending;
                        },
                    }
                },
                IoStep::Yield => {
                    proof {
                        if old(self).immediate() {
                            assert(self.program@[self.pc as int] is Yield);
                            assert(!(self.program@[self.pc as int] is Yield));
                        }
                    }
                    self.log.push(IoRecord::Yielded);
                    self.pc = self.pc + 1;
                    return Step::Pending;
                },
            }
        }
        self.done = true;
        Step::Ready
    }
}

} // verus!
