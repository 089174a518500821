//! The resolver: name validity, framing, and reply validation over a
//! scripted transport.

use wasi_socket::resolve::{collect_v4, dns_name_valid, resolve_v4, ResolveError};
use wasi_socket::runtime::sim::{ReadStep, ScriptedSocket, WriteStep};

#[test]
fn name_labels_are_bounded_at_sixty_two_bytes() {
    assert!(dns_name_valid(&b"example.com".to_vec()));
    assert!(dns_name_valid(&b"a.b.c".to_vec()));
    assert!(dns_name_valid(&vec![b'a'; 62]));
    assert!(!dns_name_valid(&vec![b'a'; 63]));
    let mut long_middle = b"ok.".to_vec();
    long_middle.extend(vec![b'x'; 63]);
    long_middle.extend(b".com");
    assert!(!dns_name_valid(&long_middle));
}

#[test]
fn over_long_labels_are_rejected_before_anything_is_sent() {
    let mut conn = ScriptedSocket::new(1, vec![], vec![]);
    let r = resolve_v4(&mut conn, &vec![b'a'; 63]);
    assert_eq!(r, Err(ResolveError::InvalidName));
    assert!(conn.sent_bytes().is_empty());
}

#[test]
fn queries_are_length_prefixed_big_endian() {
    let mut conn = ScriptedSocket::new(1, vec![], vec![]);
    let _ = resolve_v4(&mut conn, &b"example.com".to_vec());
    let sent = conn.sent_bytes();
    assert!(sent.len() > 2);
    let framed = (sent[0] as usize) * 256 + (sent[1] as usize);
    assert_eq!(framed, sent.len() - 2);
}

#[test]
fn transport_errors_surface_as_io() {
    let mut conn = ScriptedSocket::new(1, vec![], vec![WriteStep::Fail(32)]);
    let r = resolve_v4(&mut conn, &b"example.com".to_vec());
    assert_eq!(r, Err(ResolveError::Io(32)));
}

#[test]
fn short_length_prefix_is_a_partial_reply() {
    let mut conn = ScriptedSocket::new(1, vec![ReadStep::Data(vec![0])], vec![]);
    let r = resolve_v4(&mut conn, &b"example.com".to_vec());
    assert_eq!(r, Err(ResolveError::Partial));
}

#[test]
fn short_body_is_a_partial_reply() {
    // The prefix promises four bytes; only two arrive.
    let reads = vec![ReadStep::Data(vec![0, 4]), ReadStep::Data(vec![1, 2])];
    let mut conn = ScriptedSocket::new(1, reads, vec![]);
    let r = resolve_v4(&mut conn, &b"example.com".to_vec());
    assert_eq!(r, Err(ResolveError::Partial));
}

#[test]
fn garbage_replies_are_malformed() {
    let reads = vec![ReadStep::Data(vec![0, 3]), ReadStep::Data(vec![9, 9, 9])];
    let mut conn = ScriptedSocket::new(1, reads, vec![]);
    let r = resolve_v4(&mut conn, &b"example.com".to_vec());
    assert_eq!(r, Err(ResolveError::Malformed));
}

#[test]
fn replies_must_answer_this_very_query() {
    // A well-formed, successful, empty reply with id zero: either the
    // random query id happened to be zero and the empty answer set comes
    // back, or the reply is rejected for answering someone else's query.
    let reply = vec![0, 0, 0x81, 0x80, 0, 0, 0, 0, 0, 0, 0, 0];
    let reads = vec![
        ReadStep::Data(vec![0, reply.len() as u8]),
        ReadStep::Data(reply),
    ];
    let mut conn = ScriptedSocket::new(1, reads, vec![]);
    let r = resolve_v4(&mut conn, &b"example.com".to_vec());
    match r {
        Err(ResolveError::WrongId) => {},
        Ok(addrs) => assert!(addrs.is_empty()),
        other => panic!("unexpected outcome {:?}", other),
    }
}

#[test]
fn answer_collection_keeps_only_addresses() {
    let answers = vec![
        Some([1, 2, 3, 4]),
        None,
        Some([5, 6, 7, 8]),
        None,
    ];
    let addrs = collect_v4(&answers);
    assert_eq!(addrs, vec![[1, 2, 3, 4], [5, 6, 7, 8]]);
}
