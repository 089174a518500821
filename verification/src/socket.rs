//! The socket layer's data model: address families, socket kinds, option
//! names, the host's address-information records as plain values, and the
//! pure halves of the handle-level calls—flag arithmetic, timeout
//! encoding, and address decoding.  The calls themselves live with the
//! host; everything they compute from or hand back is decoded here.

use crate::net::{SockAddr, SockAddrV4, SockAddrV6};
use vstd::prelude::*;

verus! {

#[derive(Clone, Copy, Debug, PartialEq, Eq, Structural)]
pub enum AddressFamily {
    Unspec,
    Inet4,
    Inet6,
}

impl AddressFamily {
    pub fn is_unspec(&self) -> (b: bool)
        ensures
            b == (*self is Unspec),
    {
        match *self {
            AddressFamily::Unspec => true,
            _ => false,
        }
    }

    pub fn is_v4(&self) -> (b: bool)
        ensures
            b == (*self is Inet4),
    {
        match *self {
            AddressFamily::Inet4 => true,
            _ => false,
        }
    }

    pub fn is_v6(&self) -> (b: bool)
        ensures
            b == (*self is Inet6),
    {
        match *self {
            AddressFamily::Inet6 => true,
            _ => false,
        }
    }

    /// The family of an address.
    pub fn of_addr(addr: &SockAddr) -> (f: Self)
        ensures
            f == match *addr {
                SockAddr::V4(_) => AddressFamily::Inet4,
                SockAddr::V6(_) => AddressFamily::Inet6,
            },
    {
        match addr {
            SockAddr::V4(_) => AddressFamily::Inet4,
            SockAddr::V6(_) => AddressFamily::Inet6,
        }
    }

    /// The wire code the host uses for this family.
    pub fn code(&self) -> (c: u8)
        ensures
            c == spec_family_code(*self),
    {
        match *self {
            AddressFamily::Unspec => 0,
            AddressFamily::Inet4 => 1,
            AddressFamily::Inet6 => 2,
        }
    }
}

pub open spec fn spec_family_code(f: AddressFamily) -> u8 {
    match f {
        AddressFamily::Unspec => 0,
        AddressFamily::Inet4 => 1,
        AddressFamily::Inet6 => 2,
    }
}

#[derive(Clone, Copy, Debug, PartialEq, Eq, Structural)]
pub enum SocketType {
    Any,
    Datagram,
    Stream,
}

impl SocketType {
    /// The wire code the host uses for this socket kind.
    pub fn code(&self) -> (c: u8)
        ensures
            c == match *self {
                SocketType::Any => 0u8,
                SocketType::Datagram => 1u8,
                SocketType::Stream => 2u8,
            },
    {
        match *self {
            SocketType::Any => 0,
            SocketType::Datagram => 1,
            SocketType::Stream => 2,
        }
    }
}

#[derive(Clone, Copy, Debug, PartialEq, Eq, Structural)]
pub enum AiFlags {
    AiPassive,
    AiCanonname,
    AiNumericHost,
    AiNumericServ,
    AiV4Mapped,
    AiAll,
    AiAddrConfig,
}

#[derive(Clone, Copy, Debug, PartialEq, Eq, Structural)]
pub enum AiProtocol {
    IPProtoIP,
    IPProtoTCP,
    IPProtoUDP,
}

#[derive(Clone, Copy, Debug, PartialEq, Eq, Structural)]
pub enum SocketOptLevel {
    SolSocket,
}

impl SocketOptLevel {
    pub fn code(&self) -> (c: u8)
        ensures
            c == 0,
    {
        0
    }
}

#[derive(Clone, Copy, Debug, PartialEq, Eq, Structural)]
pub enum SocketOptName {
    SoReuseaddr,
    SoType,
    SoError,
    SoDontroute,
    SoBroadcast,
    SoSndbuf,
    SoRcvbuf,
    SoKeepalive,
    SoOobinline,
    SoLinger,
    SoRcvlowat,
    SoRcvtimeo,
    SoSndtimeo,
    SoAcceptconn,
    SoBindToDevice,
}

pub open spec fn spec_opt_name_code(n: SocketOptName) -> u8 {
    match n {
        SocketOptName::SoReuseaddr => 0,
        SocketOptName::SoType => 1,
        SocketOptName::SoError => 2,
        SocketOptName::SoDontroute => 3,
        SocketOptName::SoBroadcast => 4,
        SocketOptName::SoSndbuf => 5,
        SocketOptName::SoRcvbuf => 6,
        SocketOptName::SoKeepalive => 7,
        SocketOptName::SoOobinline => 8,
        SocketOptName::SoLinger => 9,
        SocketOptName::SoRcvlowat => 10,
        SocketOptName::SoRcvtimeo => 11,
        SocketOptName::SoSndtimeo => 12,
        SocketOptName::SoAcceptconn => 13,
        SocketOptName::SoBindToDevice => 14,
    }
}

impl SocketOptName {
    /// The wire code the host uses for this option.
    pub fn code(&self) -> (c: u8)
        ensures
            c == spec_opt_name_code(*self),
    {
        match *self {
            SocketOptName::SoReuseaddr => 0,
            SocketOptName::SoType => 1,
            SocketOptName::SoError => 2,
            SocketOptName::SoDontroute => 3,
            SocketOptName::SoBroadcast => 4,
            SocketOptName::SoSndbuf => 5,
            SocketOptName::SoRcvbuf => 6,
            SocketOptName::SoKeepalive => 7,
            SocketOptName::SoOobinline => 8,
            SocketOptName::SoLinger => 9,
            SocketOptName::SoRcvlowat => 10,
            SocketOptName::SoRcvtimeo => 11,
            SocketOptName::SoSndtimeo => 12,
            SocketOptName::SoAcceptconn => 13,
            SocketOptName::SoBindToDevice => 14,
        }
    }
}

/// The host's socket-address record, as plain values: the family and the
/// address bytes it points at.
#[derive(Debug, Clone)]
pub struct WasiSockaddr {
    pub family: AddressFamily,
    pub sa_data_len: u32,
    pub sa_data: Vec<u8>,
}

impl WasiSockaddr {
    pub fn new(family: AddressFamily, sa_data: Vec<u8>) -> (s: WasiSockaddr)
        ensures
            s.family == family,
            s.sa_data_len == 14,
            s.sa_data@ == sa_data@,
    {
        WasiSockaddr { family, sa_data_len: 14, sa_data }
    }
}

impl Default for WasiSockaddr {
    fn default() -> (s: WasiSockaddr)
        ensures
            s.family == AddressFamily::Inet4,
            s.sa_data_len == 14,
            s.sa_data@ == Seq::<u8>::empty(),
    {
        WasiSockaddr { family: AddressFamily::Inet4, sa_data_len: 14, sa_data: Vec::new() }
    }
}

/// One address-information record from the host's lookup, as plain values.
/// The host-side list links and buffers stay with the host; what the
/// lookup's logic reads of a record is here.
#[derive(Debug, Clone)]
pub struct WasiAddrinfo {
    pub ai_flags: AiFlags,
    pub ai_family: AddressFamily,
    pub ai_socktype: SocketType,
    pub ai_protocol: AiProtocol,
    pub ai_addrlen: u32,
}

impl WasiAddrinfo {
    /// The hints record a lookup starts from.
    pub fn default() -> (a: WasiAddrinfo)
        ensures
            a.ai_flags == AiFlags::AiPassive,
            a.ai_family == AddressFamily::Inet4,
            a.ai_socktype == SocketType::Stream,
            a.ai_protocol == AiProtocol::IPProtoTCP,
            a.ai_addrlen == 0,
    {
        WasiAddrinfo {
            ai_flags: AiFlags::AiPassive,
            ai_family: AddressFamily::Inet4,
            ai_socktype: SocketType::Stream,
            ai_protocol: AiProtocol::IPProtoTCP,
            ai_addrlen: 0,
        }
    }
}

/// A socket handle.  The handle is owned by the host's wrapper layer; the
/// runtime only reads it for bookkeeping and never closes it.
#[derive(Debug, Clone, Copy)]
pub struct Socket {
    fd: i32,
}

impl Socket {
    pub closed spec fn fd_of(&self) -> i32 {
        self.fd
    }

    pub fn from_fd(fd: i32) -> (s: Self)
        ensures
            s.fd_of() == fd,
    {
        Socket { fd }
    }

    pub fn raw_fd(&self) -> (fd: i32)
        ensures
            fd == self.fd_of(),
    {
        self.fd
    }
}

/// The flag word after adding or removing one flag, and whether the host
/// needs to be told at all.
pub fn apply_flag(previous: i32, flag: i32, set: bool) -> (r: (i32, bool))
    ensures
        r.0 == if set {
            previous | flag
        } else {
            previous & !flag
        },
        r.1 == (r.0 != previous),
{
    let new: i32 = if set {
        previous | flag
    } else {
        previous & !flag
    };
    (new, new != previous)
}

/// A duration as plain values, for timeout options.
#[derive(Clone, Copy, Debug, PartialEq, Eq, Structural)]
pub struct DurationParts {
    pub secs: u64,
    pub micros: u32,
}

/// How a timeout option is encoded for the host: seconds clamped to the
/// host's range plus microseconds, and no timeout as both zero.
pub fn into_timeval_parts(duration: Option<DurationParts>) -> (r: (i64, i64))
    ensures
        r == match duration {
            Some(d) => (
                (if d.secs <= i64::MAX as u64 {
                    d.secs as i64
                } else {
                    i64::MAX
                }),
                d.micros as i64,
            ),
            None => (0int as i64, 0int as i64),
        },
{
    match duration {
        Some(d) => {
            let secs: i64 = if d.secs <= i64::MAX as u64 {
                d.secs as i64
            } else {
                i64::MAX
            };
            (secs, d.micros as i64)
        },
        None => (0, 0),
    }
}

/// How a timeout option is decoded: both fields zero means no timeout.
pub fn from_timeval_parts(tv_sec: i64, tv_usec: i64) -> (r: Option<DurationParts>)
    requires
        0 <= tv_usec < 1000000,
    ensures
        r == if tv_sec == 0 && tv_usec == 0 {
            None::<DurationParts>
        } else {
            Some(DurationParts { secs: tv_sec as u64, micros: tv_usec as u32 })
        },
{
    if tv_sec == 0 && tv_usec == 0 {
        None
    } else {
        Some(DurationParts { secs: tv_sec as u64, micros: tv_usec as u32 })
    }
}

/// Decodes the host's answer to a local- or peer-address query: family
/// code four is a four-byte address, six a sixteen-byte one, anything else
/// is unsupported.
pub fn decode_host_addr(addr_type: u32, addr_buf: [u8; 16], port: u32) -> (r: Result<SockAddr, ()>)
    ensures
        addr_type == 4 ==> r == Ok::<SockAddr, ()>(
            SockAddr::V4(
                SockAddrV4 {
                    ip: [addr_buf[0], addr_buf[1], addr_buf[2], addr_buf[3]],
                    port: port as u16,
                },
            ),
        ),
        addr_type == 6 ==> r == Ok::<SockAddr, ()>(
            SockAddr::V6(SockAddrV6 { ip: addr_buf, port: port as u16 }),
        ),
        addr_type != 4 && addr_type != 6 ==> r == Err::<SockAddr, ()>(()),
{
    if addr_type == 4 {
        Ok(
            SockAddr::V4(
                SockAddrV4 {
                    ip: [addr_buf[0], addr_buf[1], addr_buf[2], addr_buf[3]],
                    port: port as u16,
                },
            ),
        )
    } else if addr_type == 6 {
        Ok(SockAddr::V6(SockAddrV6 { ip: addr_buf, port: port as u16 }))
    } else {
        Err(())
    }
}

/// Decodes the sender address a datagram receive hands back: family and
/// port little-endian in the first four bytes, then the four address
/// bytes; a family other than the host's internet code reads as an
/// unspecified six-byte address, as the host leaves it undecoded.
pub fn decode_recv_addr(addr_buf: [u8; 16]) -> (r: SockAddr)
    ensures
        r == (if addr_buf[0] as int + addr_buf[1] as int * 256 == 2 {
            SockAddr::V4(
                SockAddrV4 {
                    ip: [addr_buf[4], addr_buf[5], addr_buf[6], addr_buf[7]],
                    port: (addr_buf[2] as int + addr_buf[3] as int * 256) as u16,
                },
            )
        } else {
            SockAddr::V6(
                SockAddrV6 {
                    ip: [0, 0, 0, 0, 0, 0, 0, 0, 0, 0, 0, 0, 0, 0, 0, 0],
                    port: (addr_buf[2] as int + addr_buf[3] as int * 256) as u16,
                },
            )
        }),
{
    let family: u16 = addr_buf[0] as u16 + addr_buf[1] as u16 * 256;
    let port: u16 = addr_buf[2] as u16 + addr_buf[3] as u16 * 256;
    if family == 2 {
        SockAddr::V4(SockAddrV4 { ip: [addr_buf[4], addr_buf[5], addr_buf[6], addr_buf[7]], port })
    } else {
        SockAddr::V6(SockAddrV6 { ip: [0, 0, 0, 0, 0, 0, 0, 0, 0, 0, 0, 0, 0, 0, 0, 0], port })
    }
}

/// The lookup result one record contributes: nothing for an empty or
/// non-IPv4 record, else the address from the record's buffer—port in
/// big-endian in the first two bytes, the address in the next four.
pub open spec fn lookup_v4_of(info: WasiAddrinfo, sa: WasiSockaddr, buf: [u8; 26]) -> Option<
    SockAddr,
> {
    if info.ai_addrlen == 0 {
        None
    } else {
        match sa.family {
            AddressFamily::Inet4 => Some(
                SockAddr::V4(
                    SockAddrV4 {
                        ip: [buf[2], buf[3], buf[4], buf[5]],
                        port: (buf[0] as int * 256 + buf[1] as int) as u16,
                    },
                ),
            ),
            _ => None,
        }
    }
}

/// The addresses a whole lookup yields, in record order.
pub open spec fn lookup_v4_results(
    infos: Seq<WasiAddrinfo>,
    sas: Seq<WasiSockaddr>,
    bufs: Seq<[u8; 26]>,
) -> Seq<SockAddr>
    decreases infos.len(),
{
    if infos.len() == 0 || sas.len() == 0 || bufs.len() == 0 {
        Seq::empty()
    } else {
        (match lookup_v4_of(infos[0], sas[0], bufs[0]) {
            Some(a) => seq![a],
            None => Seq::empty(),
        }) + lookup_v4_results(infos.drop_first(), sas.drop_first(), bufs.drop_first())
    }
}

proof fn lemma_lookup_v4_push(
    infos: Seq<WasiAddrinfo>,
    sas: Seq<WasiSockaddr>,
    bufs: Seq<[u8; 26]>,
    x: WasiAddrinfo,
    y: WasiSockaddr,
    z: [u8; 26],
)
    requires
        infos.len() == sas.len(),
        infos.len() == bufs.len(),
    ensures
        lookup_v4_results(infos.push(x), sas.push(y), bufs.push(z)) == lookup_v4_results(
            infos,
            sas,
            bufs,
        ) + (match lookup_v4_of(x, y, z) {
            Some(a) => seq![a],
            None => Seq::<SockAddr>::empty(),
        }),
    decreases infos.len(),
{
    reveal_with_fuel(lookup_v4_results, 3);
    if infos.len() == 0 {
        assert(infos.push(x).drop_first() =~= Seq::<WasiAddrinfo>::empty());
        assert(sas.push(y).drop_first() =~= Seq::<WasiSockaddr>::empty());
        assert(bufs.push(z).drop_first() =~= Seq::<[u8; 26]>::empty());
        assert(lookup_v4_results(infos.push(x), sas.push(y), bufs.push(z)) =~= lookup_v4_results(
            infos,
            sas,
            bufs,
        ) + (match lookup_v4_of(x, y, z) {
            Some(a) => seq![a],
            None => Seq::<SockAddr>::empty(),
        }));
    } else {
        assert(infos.push(x).drop_first() =~= infos.drop_first().push(x));
        assert(sas.push(y).drop_first() =~= sas.drop_first().push(y));
        assert(bufs.push(z).drop_first() =~= bufs.drop_first().push(z));
        assert(infos.push(x)[0] == infos[0]);
        assert(sas.push(y)[0] == sas[0]);
        assert(bufs.push(z)[0] == bufs[0]);
        lemma_lookup_v4_push(infos.drop_first(), sas.drop_first(), bufs.drop_first(), x, y, z);
        assert(lookup_v4_results(infos.push(x), sas.push(y), bufs.push(z)) =~= lookup_v4_results(
            infos,
            sas,
            bufs,
        ) + (match lookup_v4_of(x, y, z) {
            Some(a) => seq![a],
            None => Seq::<SockAddr>::empty(),
        }));
    }
}

/// Folds the host's raw lookup records into addresses: empty records,
/// unspecified families and six-byte families are passed over, and each
/// four-byte record yields its address and big-endian port.
pub fn collect_lookup_v4(
    addrinfos: &Vec<WasiAddrinfo>,
    sockaddrs: &Vec<WasiSockaddr>,
    sockbuffs: &Vec<[u8; 26]>,
) -> (r: Vec<SockAddr>)
    requires
        addrinfos@.len() <= sockaddrs@.len(),
        addrinfos@.len() <= sockbuffs@.len(),
    ensures
        r@ == lookup_v4_results(
            addrinfos@,
            sockaddrs@.take(addrinfos@.len() as int),
            sockbuffs@.take(addrinfos@.len() as int),
        ),
{
    let n = addrinfos.len();
    let ghost sas = sockaddrs@.take(n as int);
    let ghost bufs = sockbuffs@.take(n as int);
    let mut r: Vec<SockAddr> = Vec::new();
    let mut i: usize = 0;
    while i < n
        invariant
            i <= n,
            n == addrinfos@.len(),
            n <= sockaddrs@.len(),
            n <= sockbuffs@.len(),
            sas == sockaddrs@.take(n as int),
            bufs == sockbuffs@.take(n as int),
            r@ == lookup_v4_results(
                addrinfos@.take(i as int),
                sas.take(i as int),
                bufs.take(i as int),
            ),
        decreases n - i,
    {
        let info_addrlen = addrinfos[i].ai_addrlen;
        let fam = sockaddrs[i].family;
        let buf = sockbuffs[i];
        proof {
            lemma_lookup_v4_push(
                addrinfos@.take(i as int),
                sas.take(i as int),
                bufs.take(i as int),
                addrinfos@[i as int],
                sockaddrs@[i as int],
                buf,
            );
            assert(addrinfos@.take(i + 1 as int) =~= addrinfos@.take(i as int).push(
                addrinfos@[i as int],
            ));
            assert(sas.take(i + 1 as int) =~= sas.take(i as int).push(sockaddrs@[i as int]));
            assert(bufs.take(i + 1 as int) =~= bufs.take(i as int).push(buf));
        }
        if info_addrlen != 0 {
            match fam {
                AddressFamily::Inet4 => {
                    let port: u16 = (buf[0] as u16) * 256 + (buf[1] as u16);
                    r.push(
                        SockAddr::V4(SockAddrV4 { ip: [buf[2], buf[3], buf[4], buf[5]], port }),
                    );
                    proof {
                        assert(r@ =~= lookup_v4_results(
                            addrinfos@.take(i + 1 as int),
                            sas.take(i + 1 as int),
                            bufs.take(i + 1 as int),
                        ));
                    }
                },
                _ => {},
            }
        }
        i = i + 1;
    }
    proof {
        assert(addrinfos@.take(n as int) =~= addrinfos@);
        assert(sas.take(n as int) =~= sas);
        assert(bufs.take(n as int) =~= bufs);
    }
    r
}

} // verus!
