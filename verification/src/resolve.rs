//! Name resolution over a stream transport.
//!
//! A query is framed with a two-byte big-endian length prefix, written to
//! the transport, and the reply is read the same way: first the length,
//! then exactly that many bytes.  The reply must parse, carry the id the
//! query was sent with, and report success; the answers' four-byte
//! addresses are the result.  Encoding and parsing of the packets
//! themselves stand behind trusted calls into an outside parser; the
//! framing, the length checks, the id check and the answer collection are
//! verified.

use crate::runtime::sim::ScriptedSocket;
use crate::runtime::tcp::{IoOutcome, NonBlockingSocket};
use vstd::prelude::*;

verus! {

/// A reliable byte transport: a write that takes the whole buffer or
/// fails, and a read that fills at most the buffer handed to it.
pub trait Conn: Sized {
    fn write_all(&mut self, buf: &Vec<u8>) -> (r: Result<(), i32>);

    fn read(&mut self, buf: &mut Vec<u8>) -> (r: Result<usize, i32>)
        ensures
            final(buf)@.len() == old(buf)@.len(),
            r matches Ok(n) ==> n <= old(buf)@.len(),
    ;
}

/// Whether every dot-separated label so far stays within the wire limit of
/// sixty-two bytes, `run` bytes of the current label already seen.
pub open spec fn labels_ok_rec(s: Seq<u8>, run: int) -> bool
    decreases s.len(),
{
    if s.len() == 0 {
        run <= 62
    } else if s[0] == 46 {
        run <= 62 && labels_ok_rec(s.drop_first(), 0)
    } else {
        labels_ok_rec(s.drop_first(), run + 1)
    }
}

/// A name whose labels all fit on the wire.
pub open spec fn dns_name_ok(s: Seq<u8>) -> bool {
    labels_ok_rec(s, 0)
}

/// Checks that every dot-separated label of `name` fits on the wire.
pub fn dns_name_valid(name: &Vec<u8>) -> (b: bool)
    ensures
        b == dns_name_ok(name@),
{
    let mut i: usize = 0;
    let mut run: usize = 0;
    proof {
        assert(name@.skip(0) =~= name@);
    }
    while i < name.len()
        invariant
            i <= name@.len(),
            run <= i,
            dns_name_ok(name@) == labels_ok_rec(name@.skip(i as int), run as int),
        decreases name@.len() - i,
    {
        proof {
            assert(name@.skip(i as int)[0] == name@[i as int]);
            assert(name@.skip(i as int).drop_first() =~= name@.skip(i + 1 as int));
        }
        if name[i] == 46 {
            if run > 62 {
                return false;
            }
            run = 0;
        } else {
            run = run + 1;
        }
        i = i + 1;
    }
    proof {
        assert(name@.skip(name@.len() as int) =~= Seq::<u8>::empty());
    }
    run <= 62
}

/// The wire encoding of one recursive IN-class A query, as a function of
/// the id and the name alone.
pub uninterp spec fn dns_query_bytes(id: u16, name: Seq<u8>) -> Seq<u8>;

/// Relies on dns_parser's Builder—new_query, add_question and build—for
/// the wire encoding of one recursive IN-class A query; the bytes depend
/// on the id and the name alone.  A name that is not text, or a query the
/// builder reports truncated, encodes to nothing.  The label bound in the
/// requires keeps out the names add_question refuses by panicking.
#[verifier::external_body]
fn encode_query_a(id: u16, name: &Vec<u8>) -> (r: Option<Vec<u8>>)
    requires
        dns_name_ok(name@),
    ensures
        r matches Some(p) ==> p@ == dns_query_bytes(id, name@),
{
    let text = match std::str::from_utf8(name) {
        Ok(t) => t,
        Err(_) => return None,
    };
    let mut b = dns_parser::Builder::new_query(id, true);
    b.add_question(text, false, dns_parser::QueryType::A, dns_parser::QueryClass::IN);
    match b.build() {
        Ok(p) => Some(p),
        Err(_) => None,
    }
}

/// What a reply holds once parsed: its id, whether its response code
/// reports success, and one entry per answer—the address for an A record,
/// nothing for any other record type.
#[derive(Debug)]
pub struct DnsAnswer {
    pub id: u16,
    pub no_error: bool,
    pub answers: Vec<Option<[u8; 4]>>,
}

/// What a reply's bytes parse to, as a function of the bytes alone;
/// malformed bytes parse to nothing.
pub uninterp spec fn dns_answer_of(bytes: Seq<u8>) -> Option<DnsAnswer>;

/// Relies on dns_parser's Packet::parse: the reply's header id, whether
/// the response code is the successful one, and each answer's record,
/// reduced to its address for A records and to nothing for every other
/// record type; malformed bytes are reported as such, not by panicking.
#[verifier::external_body]
fn parse_answer_a(buf: &Vec<u8>) -> (r: Option<DnsAnswer>)
    ensures
        r == dns_answer_of(buf@),
{
    match dns_parser::Packet::parse(buf) {
        Ok(p) => Some(
            DnsAnswer {
                id: p.header.id,
                no_error: matches!(p.header.response_code, dns_parser::ResponseCode::NoError),
                answers: p.answers.into_iter().map(
                    |a| match a.data {
                        dns_parser::RData::A(ip) => Some(ip.0.octets()),
                        _ => None,
                    },
                ).collect(),
            },
        ),
        Err(_) => None,
    }
}

pub assume_specification<T>[ rand::random::<T> ]() -> (r: T)
    where
        rand::distributions::Standard: rand::distributions::Distribution<T>,
;

/// Why a resolution failed: a name no query can carry, a query that could
/// not be encoded, a transport error, a short reply, a reply that does not
/// parse, a reply to someone else's query, or a server that reported
/// failure.
#[derive(Clone, Copy, Debug, PartialEq, Eq, Structural)]
pub enum ResolveError {
    InvalidName,
    Truncated,
    Io(i32),
    Partial,
    Malformed,
    WrongId,
    Server,
}

/// The addresses among a reply's answers, in answer order.
pub open spec fn some_addrs(s: Seq<Option<[u8; 4]>>) -> Seq<[u8; 4]>
    decreases s.len(),
{
    if s.len() == 0 {
        Seq::empty()
    } else {
        (match s[0] {
            Some(a) => seq![a],
            None => Seq::empty(),
        }) + some_addrs(s.drop_first())
    }
}

proof fn lemma_some_addrs_push(s: Seq<Option<[u8; 4]>>, x: Option<[u8; 4]>)
    ensures
        some_addrs(s.push(x)) == some_addrs(s) + (match x {
            Some(a) => seq![a],
            None => Seq::<[u8; 4]>::empty(),
        }),
    decreases s.len(),
{
    reveal_with_fuel(some_addrs, 3);
    if s.len() == 0 {
        assert(s.push(x).drop_first() =~= Seq::<Option<[u8; 4]>>::empty());
        assert(s.push(x)[0] == x);
        assert(some_addrs(s.push(x)) =~= some_addrs(s) + (match x {
            Some(a) => seq![a],
            None => Seq::<[u8; 4]>::empty(),
        }));
    } else {
        assert(s.push(x).drop_first() =~= s.drop_first().push(x));
        assert(s.push(x)[0] == s[0]);
        lemma_some_addrs_push(s.drop_first(), x);
        assert(some_addrs(s.push(x)) =~= some_addrs(s) + (match x {
            Some(a) => seq![a],
            None => Seq::<[u8; 4]>::empty(),
        }));
    }
}

/// Keeps the addresses among a reply's answers, in order.
pub fn collect_v4(answers: &Vec<Option<[u8; 4]>>) -> (r: Vec<[u8; 4]>)
    ensures
        r@ == some_addrs(answers@),
{
    let mut r: Vec<[u8; 4]> = Vec::new();
    let mut i: usize = 0;
    while i < answers.len()
        invariant
            i <= answers@.len(),
            r@ == some_addrs(answers@.take(i as int)),
        decreases answers@.len() - i,
    {
        proof {
            lemma_some_addrs_push(answers@.take(i as int), answers@[i as int]);
            assert(answers@.take(i + 1 as int) =~= answers@.take(i as int).push(
                answers@[i as int],
            ));
        }
        match &answers[i] {
            Some(a) => {
                r.push(*a);
                proof {
                    assert(r@ =~= some_addrs(answers@.take(i + 1 as int)));
                }
            },
            None => {},
        }
        i = i + 1;
    }
    proof {
        assert(answers@.take(answers@.len() as int) =~= answers@);
    }
    r
}

/// Resolves a name to its four-byte addresses over `conn`.  The query is
/// length-prefixed and written whole; the reply is read as a length
/// prefix and exactly that many bytes, must parse, must answer this very
/// query's id, and must report success; its A records are the result, in
/// answer order.  A name with an over-long label is rejected before
/// anything is sent, and exactly then.
pub fn resolve_v4<C: Conn>(conn: &mut C, name: &Vec<u8>) -> (r: Result<Vec<[u8; 4]>, ResolveError>)
    ensures
        (r == Err::<Vec<[u8; 4]>, ResolveError>(ResolveError::InvalidName)) <==> !dns_name_ok(
            name@,
        ),
        r matches Ok(addrs) ==> exists|a: DnsAnswer|
            a.no_error && addrs@ == #[trigger] some_addrs(a.answers@),
{
    if !dns_name_valid(name) {
        return Err(ResolveError::InvalidName);
    }
    let id: u16 = rand::random();
    let packet = match encode_query_a(id, name) {
        Some(p) => p,
        None => {
            return Err(ResolveError::Truncated);
        },
    };
    if packet.len() > 65535 {
        return Err(ResolveError::Truncated);
    }
    let hi: u8 = (packet.len() / 256) as u8;
    let lo: u8 = (packet.len() % 256) as u8;
    let mut frame: Vec<u8> = Vec::new();
    frame.push(hi);
    frame.push(lo);
    match conn.write_all(&frame) {
        Ok(u) => u,
        Err(e) => {
            return Err(ResolveError::Io(e));
        },
    }
    match conn.write_all(&packet) {
        Ok(u) => u,
        Err(e) => {
            return Err(ResolveError::Io(e));
        },
    }
    let mut szbuf: Vec<u8> = vec![0u8, 0u8];
    let got = match conn.read(&mut szbuf) {
        Ok(n) => n,
        Err(e) => {
            return Err(ResolveError::Io(e));
        },
    };
    if got < 2 {
        return Err(ResolveError::Partial);
    }
    let psize: usize = (szbuf[0] as usize) * 256 + (szbuf[1] as usize);
    let mut buf: Vec<u8> = vec![0u8; psize];
    let got2 = match conn.read(&mut buf) {
        Ok(n) => n,
        Err(e) => {
            return Err(ResolveError::Io(e));
        },
    };
    if got2 != psize {
        return Err(ResolveError::Partial);
    }
    let ans = match parse_answer_a(&buf) {
        Some(a) => a,
        None => {
            return Err(ResolveError::Malformed);
        },
    };
    if ans.id != id {
        return Err(ResolveError::WrongId);
    }
    if !ans.no_error {
        return Err(ResolveError::Server);
    }
    let addrs = collect_v4(&ans.answers);
    proof {
        assert(ans.no_error && addrs@ == some_addrs(ans.answers@));
    }
    Ok(addrs)
}

impl Conn for ScriptedSocket {
    /// One scripted write step answers for the whole buffer: a short
    /// acceptance reads as an I/O failure, would-block as the host's
    /// try-again error.
    fn write_all(&mut self, buf: &Vec<u8>) -> (r: Result<(), i32>) {
        match self.write_nb(buf) {
            IoOutcome::Done(n) => {
                if n == buf.len() {
                    Ok(())
                } else {
                    Err(5)
                }
            },
            IoOutcome::Block => Err(11),
            IoOutcome::Fail(e) => Err(e),
        }
    }

    fn read(&mut self, buf: &mut Vec<u8>) -> (r: Result<usize, i32>) {
        match self.read_nb(buf) {
            IoOutcome::Done(n) => Ok(n),
            IoOutcome::Block => Err(11),
            IoOutcome::Fail(e) => Err(e),
        }
    }
}

} // verus!
