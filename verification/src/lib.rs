//! A cooperative, single-threaded socket runtime: a task scheduler, a
//! readiness reactor over a blocking multi-wait primitive, and the wake
//! protocol binding them, together with the data model of the socket layer
//! that feeds them.

#![allow(unused_imports)]

pub mod net;
pub mod poll;
pub mod resolve;
pub mod runtime;
pub mod socket;
pub mod table;

use crate::socket::Socket;
use vstd::prelude::*;

verus! {

/// A TCP connection: the handle the host's wrapper layer opened for it.
#[derive(Debug, Clone, Copy)]
pub struct TcpStream {
    s: Socket,
}

impl TcpStream {
    pub closed spec fn socket_of(&self) -> Socket {
        self.s
    }

    pub fn new(s: Socket) -> (t: Self)
        ensures
            t.socket_of() == s,
    {
        TcpStream { s }
    }

    pub fn raw_fd(&self) -> (fd: i32)
        ensures
            fd == self.socket_of().fd_of(),
    {
        self.s.raw_fd()
    }
}

/// A UDP socket: the handle the host's wrapper layer opened for it.
#[derive(Debug, Clone, Copy)]
pub struct UdpSocket {
    s: Socket,
}

impl UdpSocket {
    pub closed spec fn socket_of(&self) -> Socket {
        self.s
    }

    pub fn new(s: Socket) -> (t: Self)
        ensures
            t.socket_of() == s,
    {
        UdpSocket { s }
    }

    pub fn raw_fd(&self) -> (fd: i32)
        ensures
            fd == self.socket_of().fd_of(),
    {
        self.s.raw_fd()
    }
}

} // verus!
