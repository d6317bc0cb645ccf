//! The envelope in which an application message travels inside a group
//! message: the content and the key that tells two sendings of one content
//! apart.

use vstd::prelude::*;
use crate::codec::{
    framed, lemma_framed_round_trip, parse_framed, put_framed, read_framed,
};

verus! {

/// The decimal digits of a number that is not negative.
pub open spec fn digits_of(n: nat) -> Seq<u8>
    decreases n,
{
    if n < 10 {
        seq![(48 + n) as u8]
    } else {
        digits_of(n / 10).push((48 + n % 10) as u8)
    }
}

/// The decimal text of a number, with a minus sign in front of a negative
/// one.
pub open spec fn decimal_of(n: int) -> Seq<u8> {
    if n < 0 {
        seq![45u8] + digits_of((-n) as nat)
    } else {
        digits_of(n as nat)
    }
}

/// Appends the decimal digits of a number.
fn push_digits(n: u64, buf: &mut Vec<u8>)
    ensures
        final(buf)@ == old(buf)@ + digits_of(n as nat),
    decreases n,
{
    let ghost start = buf@;
    if n >= 10 {
        push_digits(n / 10, buf);
    }
    buf.push(48 + (n % 10) as u8);
    proof {
        if n >= 10 {
            assert(buf@ =~= start + digits_of(n as nat));
        } else {
            assert(buf@ =~= start + digits_of(n as nat));
        }
    }
}

/// The decimal text of a time in nanoseconds.
pub fn decimal_digits(n: i64) -> (text: Vec<u8>)
    ensures
        text@ == decimal_of(n as int),
{
    let mut buf: Vec<u8> = Vec::new();
    if n < 0 {
        buf.push(45u8);
        let magnitude: u64 = (-(n + 1)) as u64 + 1;
        push_digits(magnitude, &mut buf);
        assert(buf@ =~= decimal_of(n as int));
    } else {
        push_digits(n as u64, &mut buf);
        assert(buf@ =~= decimal_of(n as int));
    }
    buf
}

/// An application message as it is sealed into a group message.
#[derive(Debug, PartialEq, Eq)]
pub struct PlaintextEnvelope {
    pub content: Vec<u8>,
    pub idempotency_key: Vec<u8>,
}

/// What the envelope holds, in the wire format: the content as the first
/// field and the key as the second, each with its length in front.
pub open spec fn envelope_body(content: Seq<u8>, idempotency_key: Seq<u8>) -> Seq<u8> {
    seq![0x0Au8] + framed(content) + seq![0x12u8] + framed(idempotency_key)
}

/// The envelope in the wire format: its body as the first field, with its
/// length in front.
pub open spec fn envelope_bytes(content: Seq<u8>, idempotency_key: Seq<u8>) -> Seq<u8> {
    seq![0x0Au8] + framed(envelope_body(content, idempotency_key))
}

/// The content and the key that a body holds, where it holds both, in this
/// order, and nothing besides.
pub open spec fn parse_envelope_body(body: Seq<u8>) -> Option<(Seq<u8>, Seq<u8>)> {
    if body.len() == 0 || body[0] != 0x0A {
        None
    } else {
        match parse_framed(body.skip(1)) {
            None => None,
            Some((content, a)) => if body.len() <= 1 + a || body[(1 + a) as int] != 0x12 {
                None
            } else {
                match parse_framed(body.skip((2 + a) as int)) {
                    None => None,
                    Some((key, b)) => if 2 + a + b == body.len() {
                        Some((content, key))
                    } else {
                        None
                    },
                }
            },
        }
    }
}

/// The content and the key that an envelope holds, where the bytes are an
/// envelope and nothing besides.
pub open spec fn parse_envelope(bytes: Seq<u8>) -> Option<(Seq<u8>, Seq<u8>)> {
    if bytes.len() == 0 || bytes[0] != 0x0A {
        None
    } else {
        match parse_framed(bytes.skip(1)) {
            None => None,
            Some((body, n)) => if 1 + n == bytes.len() {
                parse_envelope_body(body)
            } else {
                None
            },
        }
    }
}

/// An envelope that was written out is read back as it was.
pub proof fn law_envelope_is_read_back(content: Seq<u8>, idempotency_key: Seq<u8>)
    requires
        content.len() <= u64::MAX,
        idempotency_key.len() <= u64::MAX,
        envelope_body(content, idempotency_key).len() <= u64::MAX,
    ensures
        parse_envelope(envelope_bytes(content, idempotency_key)) == Some((content, idempotency_key)),
{
    let body = envelope_body(content, idempotency_key);
    let bytes = envelope_bytes(content, idempotency_key);
    assert(bytes.skip(1) =~= framed(body) + Seq::<u8>::empty());
    lemma_framed_round_trip(body, Seq::<u8>::empty());
    assert(bytes[0] == 0x0A);
    let tail = seq![0x12u8] + framed(idempotency_key);
    assert(body.skip(1) =~= framed(content) + tail);
    lemma_framed_round_trip(content, tail);
    let a = framed(content).len();
    assert(body[0] == 0x0A);
    assert(body[(1 + a) as int] == 0x12);
    assert(body.skip((2 + a) as int) =~= framed(idempotency_key) + Seq::<u8>::empty());
    lemma_framed_round_trip(idempotency_key, Seq::<u8>::empty());
}

impl PlaintextEnvelope {
    /// The envelope of a content under a key.
    pub fn new(content: Vec<u8>, idempotency_key: Vec<u8>) -> (e: Self)
        ensures
            e.content == content,
            e.idempotency_key == idempotency_key,
    {
        PlaintextEnvelope { content, idempotency_key }
    }

    /// The envelope in the wire format.
    pub fn encode(&self) -> (bytes: Vec<u8>)
        ensures
            bytes@ == envelope_bytes(self.content@, self.idempotency_key@),
    {
        let mut body: Vec<u8> = Vec::new();
        body.push(0x0Au8);
        put_framed(&self.content, &mut body);
        body.push(0x12u8);
        put_framed(&self.idempotency_key, &mut body);
        assert(body@ =~= envelope_body(self.content@, self.idempotency_key@));
        let mut bytes: Vec<u8> = Vec::new();
        bytes.push(0x0Au8);
        put_framed(&body, &mut bytes);
        assert(bytes@ =~= envelope_bytes(self.content@, self.idempotency_key@));
        bytes
    }

    /// The envelope that the bytes hold.
    pub fn decode(bytes: &Vec<u8>) -> (r: Option<Self>)
        ensures
            match r {
                Some(e) => parse_envelope(bytes@) == Some((e.content@, e.idempotency_key@)),
                None => parse_envelope(bytes@) is None,
            },
    {
        if bytes.len() == 0 || bytes[0] != 0x0A {
            return None;
        }
        let (body, next) = match read_framed(bytes, 1) {
            Some(pair) => pair,
            None => {
                return None;
            },
        };
        if next != bytes.len() {
            return None;
        }
        if body.len() == 0 || body[0] != 0x0A {
            return None;
        }
        let (content, at) = match read_framed(&body, 1) {
            Some(pair) => pair,
            None => {
                return None;
            },
        };
        if at >= body.len() || body[at] != 0x12 {
            return None;
        }
        let (idempotency_key, end) = match read_framed(&body, at + 1) {
            Some(pair) => pair,
            None => {
                return None;
            },
        };
        if end != body.len() {
            return None;
        }
        Some(PlaintextEnvelope { content, idempotency_key })
    }
}

} // verus!
