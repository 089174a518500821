//! The socket layer's data model: families, option codes, flag and
//! timeout arithmetic, address decoding, lookup collection, and the
//! key-value tables behind the reactor.

use wasi_socket::net::{shutdown_flag, Shutdown, SockAddr, SockAddrV4, SockAddrV6};
use wasi_socket::socket::{
    apply_flag, collect_lookup_v4, decode_host_addr, decode_recv_addr, from_timeval_parts,
    into_timeval_parts, AddressFamily, AiFlags, AiProtocol, DurationParts, Socket, SocketOptLevel,
    SocketOptName, SocketType, WasiAddrinfo, WasiSockaddr,
};
use wasi_socket::table::KeyTable;
use wasi_socket::{TcpStream, UdpSocket};

#[test]
fn family_predicates_match_variants() {
    assert!(AddressFamily::Unspec.is_unspec());
    assert!(!AddressFamily::Unspec.is_v4());
    assert!(AddressFamily::Inet4.is_v4());
    assert!(!AddressFamily::Inet4.is_v6());
    assert!(AddressFamily::Inet6.is_v6());
    assert!(!AddressFamily::Inet6.is_unspec());
}

#[test]
fn family_of_addr_follows_the_address() {
    let v4 = SockAddr::V4(SockAddrV4 { ip: [1, 2, 3, 4], port: 80 });
    let v6 = SockAddr::V6(SockAddrV6 { ip: [0; 16], port: 80 });
    assert_eq!(AddressFamily::of_addr(&v4), AddressFamily::Inet4);
    assert_eq!(AddressFamily::of_addr(&v6), AddressFamily::Inet6);
}

#[test]
fn wire_codes_match_the_host_tables() {
    assert_eq!(AddressFamily::Unspec.code(), 0);
    assert_eq!(AddressFamily::Inet4.code(), 1);
    assert_eq!(AddressFamily::Inet6.code(), 2);
    assert_eq!(SocketType::Any.code(), 0);
    assert_eq!(SocketType::Datagram.code(), 1);
    assert_eq!(SocketType::Stream.code(), 2);
    assert_eq!(SocketOptLevel::SolSocket.code(), 0);
    assert_eq!(SocketOptName::SoReuseaddr.code(), 0);
    assert_eq!(SocketOptName::SoError.code(), 2);
    assert_eq!(SocketOptName::SoRcvtimeo.code(), 11);
    assert_eq!(SocketOptName::SoSndtimeo.code(), 12);
    assert_eq!(SocketOptName::SoBindToDevice.code(), 14);
    assert_eq!(shutdown_flag(Shutdown::Read), 1);
    assert_eq!(shutdown_flag(Shutdown::Write), 2);
    assert_eq!(shutdown_flag(Shutdown::Both), 3);
}

#[test]
fn apply_flag_adds_and_removes_bits() {
    assert_eq!(apply_flag(0b0101, 0b0010, true), (0b0111, true));
    assert_eq!(apply_flag(0b0111, 0b0010, true), (0b0111, false));
    assert_eq!(apply_flag(0b0111, 0b0010, false), (0b0101, true));
    assert_eq!(apply_flag(0b0101, 0b0010, false), (0b0101, false));
}

#[test]
fn timeouts_encode_and_decode() {
    assert_eq!(into_timeval_parts(None), (0, 0));
    assert_eq!(
        into_timeval_parts(Some(DurationParts { secs: 3, micros: 250_000 })),
        (3, 250_000),
    );
    assert_eq!(into_timeval_parts(Some(DurationParts { secs: u64::MAX, micros: 1 })).0, i64::MAX);
    assert_eq!(from_timeval_parts(0, 0), None);
    assert_eq!(from_timeval_parts(3, 250_000), Some(DurationParts { secs: 3, micros: 250_000 }));
}

#[test]
fn host_addresses_decode_by_family_code() {
    let mut buf = [0u8; 16];
    buf[0] = 10;
    buf[1] = 0;
    buf[2] = 0;
    buf[3] = 1;
    match decode_host_addr(4, buf, 8080).unwrap() {
        SockAddr::V4(a) => {
            assert_eq!(a.ip, [10, 0, 0, 1]);
            assert_eq!(a.port, 8080);
        },
        _ => panic!("expected a four-byte address"),
    }
    match decode_host_addr(6, buf, 443).unwrap() {
        SockAddr::V6(a) => {
            assert_eq!(a.ip, buf);
            assert_eq!(a.port, 443);
        },
        _ => panic!("expected a sixteen-byte address"),
    }
    assert!(decode_host_addr(7, buf, 1).is_err());
}

#[test]
fn datagram_sender_addresses_decode_little_endian() {
    let mut buf = [0u8; 16];
    buf[0] = 2;  // family, little-endian
    buf[2] = 0x39;  // port 12345 = 0x3039, little-endian
    buf[3] = 0x30;
    buf[4] = 192;
    buf[5] = 168;
    buf[6] = 1;
    buf[7] = 2;
    match decode_recv_addr(buf) {
        SockAddr::V4(a) => {
            assert_eq!(a.ip, [192, 168, 1, 2]);
            assert_eq!(a.port, 12345);
        },
        _ => panic!("expected a four-byte address"),
    }
}

#[test]
fn lookup_collection_keeps_only_populated_v4_records() {
    let infos = vec![
        WasiAddrinfo { ai_addrlen: 6, ..WasiAddrinfo::default() },
        WasiAddrinfo { ai_addrlen: 0, ..WasiAddrinfo::default() },
        WasiAddrinfo { ai_addrlen: 6, ..WasiAddrinfo::default() },
    ];
    let mut sa_v6 = WasiSockaddr::default();
    sa_v6.family = AddressFamily::Inet6;
    let sockaddrs = vec![WasiSockaddr::default(), WasiSockaddr::default(), sa_v6];
    let mut buf0 = [0u8; 26];
    buf0[0] = 0x1F;  // port 8080 = 0x1F90, big-endian
    buf0[1] = 0x90;
    buf0[2] = 93;
    buf0[3] = 184;
    buf0[4] = 216;
    buf0[5] = 34;
    let sockbuffs = vec![buf0, [0u8; 26], [0u8; 26]];
    let addrs = collect_lookup_v4(&infos, &sockaddrs, &sockbuffs);
    assert_eq!(addrs.len(), 1);
    match addrs[0] {
        SockAddr::V4(a) => {
            assert_eq!(a.ip, [93, 184, 216, 34]);
            assert_eq!(a.port, 8080);
        },
        _ => panic!("expected a four-byte address"),
    }
}

#[test]
fn addrinfo_hints_default_to_v4_tcp_streams() {
    let hints = WasiAddrinfo::default();
    assert_eq!(hints.ai_flags, AiFlags::AiPassive);
    assert_eq!(hints.ai_family, AddressFamily::Inet4);
    assert_eq!(hints.ai_socktype, SocketType::Stream);
    assert_eq!(hints.ai_protocol, AiProtocol::IPProtoTCP);
    assert_eq!(hints.ai_addrlen, 0);
}

#[test]
fn sockaddr_record_keeps_its_fields() {
    let s = WasiSockaddr::new(AddressFamily::Inet4, vec![1, 2, 3]);
    assert_eq!(s.family, AddressFamily::Inet4);
    assert_eq!(s.sa_data_len, 14);
    assert_eq!(s.sa_data, vec![1, 2, 3]);
}

#[test]
fn ports_can_be_replaced_in_place() {
    let mut a = SockAddr::V4(SockAddrV4 { ip: [1, 2, 3, 4], port: 1 });
    a.set_port(8080);
    assert_eq!(a.port(), 8080);
    match a {
        SockAddr::V4(v) => assert_eq!(v.ip, [1, 2, 3, 4]),
        _ => panic!("family changed"),
    }
}

#[test]
fn handles_carry_through_the_wrappers() {
    let s = Socket::from_fd(17);
    assert_eq!(s.raw_fd(), 17);
    assert_eq!(TcpStream::new(s).raw_fd(), 17);
    assert_eq!(UdpSocket::new(s).raw_fd(), 17);
}

#[test]
fn key_table_keeps_the_latest_entry_per_key() {
    let mut t: KeyTable<usize> = KeyTable::new();
    assert_eq!(t.len(), 0);
    t.insert(1, 10);
    t.insert(2, 20);
    t.insert(1, 11);
    assert_eq!(t.len(), 2);
    assert_eq!(t.get(1), Some(11));
    assert_eq!(t.get(2), Some(20));
    assert_eq!(t.get(3), None);
    assert_eq!(t.remove(1), Some(11));
    assert_eq!(t.get(1), None);
    assert_eq!(t.remove(1), None);
    assert_eq!(t.values(), vec![20]);
}
