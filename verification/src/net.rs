//! Socket addresses and shutdown modes as plain values.  The host's
//! address structures are decoded into these at the boundary; everything
//! the runtime reads of an address is here.

use vstd::prelude::*;

verus! {

#[derive(Clone, Copy, Debug)]
pub struct SockAddrV4 {
    pub ip: [u8; 4],
    pub port: u16,
}

#[derive(Clone, Copy, Debug)]
pub struct SockAddrV6 {
    pub ip: [u8; 16],
    pub port: u16,
}

#[derive(Clone, Copy, Debug)]
pub enum SockAddr {
    V4(SockAddrV4),
    V6(SockAddrV6),
}

impl SockAddr {
    pub open spec fn spec_port(&self) -> u16 {
        match *self {
            SockAddr::V4(a) => a.port,
            SockAddr::V6(a) => a.port,
        }
    }

    pub fn port(&self) -> (p: u16)
        ensures
            p == self.spec_port(),
    {
        match self {
            SockAddr::V4(a) => a.port,
            SockAddr::V6(a) => a.port,
        }
    }

    /// Replaces the port, keeping the host part.
    pub fn set_port(&mut self, port: u16)
        ensures
            final(self).spec_port() == port,
            match *old(self) {
                SockAddr::V4(a) => *final(self) == SockAddr::V4(SockAddrV4 { ip: a.ip, port }),
                SockAddr::V6(a) => *final(self) == SockAddr::V6(SockAddrV6 { ip: a.ip, port }),
            },
    {
        match self {
            SockAddr::V4(a) => {
                a.port = port;
            },
            SockAddr::V6(a) => {
                a.port = port;
            },
        }
    }
}

/// Which half of a connection to shut down.
#[derive(Clone, Copy, Debug, PartialEq, Eq, Structural)]
pub enum Shutdown {
    Read,
    Write,
    Both,
}

/// The host encodes a shutdown mode as a flag: read ends at one, write ends
/// at two, both at three.
pub open spec fn spec_shutdown_flag(how: Shutdown) -> u8 {
    match how {
        Shutdown::Read => 1,
        Shutdown::Write => 2,
        Shutdown::Both => 3,
    }
}

pub fn shutdown_flag(how: Shutdown) -> (f: u8)
    ensures
        f == spec_shutdown_flag(how),
{
    match how {
        Shutdown::Read => 1,
        Shutdown::Write => 2,
        Shutdown::Both => 3,
    }
}

} // verus!
