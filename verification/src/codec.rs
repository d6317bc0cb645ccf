//! The byte formats of the library: variable-length integers, and byte
//! strings and texts with their length in front.

use vstd::prelude::*;
use vstd::string::*;
use vstd::utf8::{decode_utf8, encode_utf8, encode_utf8_decode_utf8, encode_utf8_valid_utf8, valid_utf8};

verus! {

/// The bytes of an integer in the variable-length format: seven bits to the
/// byte, lowest first, and the high bit set on every byte but the last.
pub open spec fn varint_bytes(value: u64) -> Seq<u8>
    decreases value,
{
    if value < 128 {
        seq![value as u8]
    } else {
        seq![((value % 128) + 128) as u8] + varint_bytes(value / 128)
    }
}

/// How many bytes of a variable-length integer are read at most.
pub open spec fn max_varint_len() -> nat {
    10
}

/// The integer that stands at the head of the bytes in the variable-length
/// format, with the number of bytes it takes; nothing where the bytes end
/// too early, where there are more than `fuel` bytes to it, or where it
/// does not fit in 64 bits.
pub open spec fn parse_varint_within(bytes: Seq<u8>, fuel: nat) -> Option<(u64, nat)>
    decreases fuel,
{
    if fuel == 0 || bytes.len() == 0 {
        None
    } else if bytes[0] < 128 {
        Some((bytes[0] as u64, 1nat))
    } else {
        match parse_varint_within(bytes.skip(1), (fuel - 1) as nat) {
            Some((rest, n)) => if rest <= (u64::MAX - (bytes[0] - 128)) / 128 {
                Some((((bytes[0] - 128) + 128 * rest) as u64, n + 1))
            } else {
                None
            },
            None => None,
        }
    }
}

/// The integer that stands at the head of the bytes in the variable-length
/// format, with the number of bytes it takes.
pub open spec fn parse_varint(bytes: Seq<u8>) -> Option<(u64, nat)> {
    parse_varint_within(bytes, max_varint_len())
}

/// An integer below the k-th power of 128 takes k bytes at most.
proof fn lemma_varint_len_bound(value: u64, k: nat, bound: int)
    requires
        k >= 1,
        bound == pow128(k),
        value < bound,
    ensures
        1 <= varint_bytes(value).len() <= k,
    decreases value,
{
    if value >= 128 {
        assert(k >= 2) by {
            if k == 1 {
                assert(pow128(1) == 128) by {
                    reveal_with_fuel(pow128, 2);
                }
            }
        }
        assert(pow128(k) == 128 * pow128((k - 1) as nat));
        lemma_varint_len_bound(value / 128, (k - 1) as nat, pow128((k - 1) as nat));
    }
}

/// The k-th power of 128.
spec fn pow128(k: nat) -> int
    decreases k,
{
    if k == 0 {
        1
    } else {
        128 * pow128((k - 1) as nat)
    }
}

/// A variable-length integer takes between one and ten bytes.
pub proof fn lemma_varint_len(value: u64)
    ensures
        1 <= varint_bytes(value).len() <= max_varint_len(),
{
    assert(pow128(10) == 1180591620717411303424) by {
        reveal_with_fuel(pow128, 11);
    }
    lemma_varint_len_bound(value, 10, pow128(10));
}

/// What was written as a variable-length integer is read back as it was,
/// whatever follows it.
pub proof fn lemma_varint_round_trip(value: u64, rest: Seq<u8>, fuel: nat)
    requires
        fuel >= varint_bytes(value).len(),
    ensures
        parse_varint_within(varint_bytes(value) + rest, fuel) == Some(
            (value, varint_bytes(value).len()),
        ),
    decreases value,
{
    let bytes = varint_bytes(value) + rest;
    if value < 128 {
        assert(bytes[0] == value as u8);
    } else {
        let head = ((value % 128) + 128) as u8;
        assert(bytes[0] == head);
        assert(bytes.skip(1) =~= varint_bytes(value / 128) + rest);
        lemma_varint_round_trip(value / 128, rest, (fuel - 1) as nat);
        assert((head - 128) + 128 * (value / 128) == value);
    }
}

/// Appends an integer in the variable-length format. Calls
/// `prost::encoding::encode_varint`, which writes the low seven bits of the
/// value with the high bit set while more than seven bits are left, and
/// then the last seven bits.
#[verifier::external_body]
pub(crate) fn put_varint(value: u64, buf: &mut Vec<u8>)
    ensures
        final(buf)@ == old(buf)@ + varint_bytes(value),
{
    prost::encoding::encode_varint(value, buf);
}

/// How many bytes an integer takes in the variable-length format. Calls
/// `protobuf::rt::compute_raw_varint64_size`.
#[verifier::external_body]
fn varint_size_raw(value: u64) -> (size: u64)
    ensures
        size == varint_bytes(value).len(),
{
    protobuf::rt::compute_raw_varint64_size(value)
}

/// Reads bytes as a text. Calls `String::from_utf8`: the bytes are accepted
/// where they are valid UTF-8, and the text is what they decode to.
#[verifier::external_body]
pub(crate) fn text_of_bytes(bytes: Vec<u8>) -> (text: Option<String>)
    ensures
        text is Some <==> valid_utf8(bytes@),
        text is Some ==> text.unwrap()@ == decode_utf8(bytes@),
{
    match String::from_utf8(bytes) {
        Ok(s) => Some(s),
        Err(_) => None,
    }
}

/// An integer in the variable-length format: between one and ten bytes.
pub fn varint_encoding(value: u64) -> (bytes: Vec<u8>)
    ensures
        bytes@ == varint_bytes(value),
        1 <= bytes@.len() <= 10,
{
    let mut bytes: Vec<u8> = Vec::new();
    put_varint(value, &mut bytes);
    proof {
        lemma_varint_len(value);
        assert(bytes@ =~= varint_bytes(value));
    }
    bytes
}

/// How many bytes an integer takes in the variable-length format: between
/// one and ten.
pub fn varint_size(value: u64) -> (size: u64)
    ensures
        size == varint_bytes(value).len(),
        1 <= size <= 10,
{
    proof {
        lemma_varint_len(value);
    }
    varint_size_raw(value)
}

/// Reads the integer that stands at `at` in the variable-length format, of
/// `fuel` bytes at most.
fn read_varint_within(bytes: &Vec<u8>, at: usize, fuel: usize) -> (r: Option<(u64, usize)>)
    requires
        at <= bytes@.len(),
    ensures
        match r {
            Some((value, next)) => {
                &&& parse_varint_within(bytes@.skip(at as int), fuel as nat) == Some(
                    (value, (next - at) as nat),
                )
                &&& at < next <= bytes@.len()
            },
            None => parse_varint_within(bytes@.skip(at as int), fuel as nat) is None,
        },
    decreases fuel,
{
    let ghost tail = bytes@.skip(at as int);
    if fuel == 0 || at >= bytes.len() {
        return None;
    }
    let b = bytes[at];
    assert(tail[0] == b);
    if b < 128 {
        return Some((b as u64, at + 1));
    }
    assert(tail.skip(1) =~= bytes@.skip(at + 1));
    match read_varint_within(bytes, at + 1, fuel - 1) {
        Some((rest, next)) => {
            let low = (b - 128) as u64;
            if rest <= (u64::MAX - low) / 128 {
                Some((low + 128 * rest, next))
            } else {
                None
            }
        },
        None => None,
    }
}

/// Reads the integer that stands at `at` in the variable-length format, and
/// says where the bytes after it begin.
pub fn read_varint(bytes: &Vec<u8>, at: usize) -> (r: Option<(u64, usize)>)
    requires
        at <= bytes@.len(),
    ensures
        match r {
            Some((value, next)) => {
                &&& parse_varint(bytes@.skip(at as int)) == Some((value, (next - at) as nat))
                &&& at < next <= bytes@.len()
            },
            None => parse_varint(bytes@.skip(at as int)) is None,
        },
{
    read_varint_within(bytes, at, 10)
}

/// The bytes of a byte string with its length in front.
pub open spec fn framed(data: Seq<u8>) -> Seq<u8> {
    varint_bytes(data.len() as u64) + data
}

/// The byte string that stands at the head of the bytes with its length in
/// front, and the number of bytes that both take.
pub open spec fn parse_framed(bytes: Seq<u8>) -> Option<(Seq<u8>, nat)> {
    match parse_varint(bytes) {
        Some((len, n)) => if n + len <= bytes.len() {
            Some((bytes.subrange(n as int, (n + len) as int), (n + len) as nat))
        } else {
            None
        },
        None => None,
    }
}

/// What was written with its length in front is read back as it was,
/// whatever follows it.
pub proof fn lemma_framed_round_trip(data: Seq<u8>, rest: Seq<u8>)
    requires
        data.len() <= u64::MAX,
    ensures
        parse_framed(framed(data) + rest) == Some((data, framed(data).len())),
{
    let head = varint_bytes(data.len() as u64);
    lemma_varint_len(data.len() as u64);
    assert(framed(data) + rest =~= head + (data + rest));
    lemma_varint_round_trip(data.len() as u64, data + rest, max_varint_len());
    assert((head + (data + rest)).subrange(head.len() as int, (head.len() + data.len()) as int) =~= data);
}

/// Appends a byte string with its length in front.
pub fn put_framed(data: &Vec<u8>, buf: &mut Vec<u8>)
    ensures
        final(buf)@ == old(buf)@ + framed(data@),
{
    let ghost start = buf@;
    put_varint(data.len() as u64, buf);
    let ghost head = buf@;
    let mut i: usize = 0;
    while i < data.len()
        invariant
            0 <= i <= data@.len(),
            buf@ == head + data@.subrange(0, i as int),
        decreases data@.len() - i,
    {
        buf.push(data[i]);
        assert(data@.subrange(0, i as int).push(data@[i as int]) =~= data@.subrange(0, i + 1));
        assert(buf@ =~= head + data@.subrange(0, i + 1));
        i += 1;
    }
    assert(data@.subrange(0, data@.len() as int) =~= data@);
    assert(buf@ =~= start + framed(data@));
}

/// Reads the byte string that stands at `at` with its length in front, and
/// says where the bytes after it begin.
pub fn read_framed(bytes: &Vec<u8>, at: usize) -> (r: Option<(Vec<u8>, usize)>)
    requires
        at <= bytes@.len(),
    ensures
        match r {
            Some((data, next)) => {
                &&& parse_framed(bytes@.skip(at as int)) == Some((data@, (next - at) as nat))
                &&& at < next <= bytes@.len()
            },
            None => parse_framed(bytes@.skip(at as int)) is None,
        },
{
    let ghost tail = bytes@.skip(at as int);
    let (len, start) = match read_varint(bytes, at) {
        Some(pair) => pair,
        None => {
            return None;
        },
    };
    if len > (bytes.len() - start) as u64 {
        return None;
    }
    let len = len as usize;
    let mut data: Vec<u8> = Vec::new();
    let mut i: usize = 0;
    while i < len
        invariant
            start + len <= bytes.len(),
            0 <= i <= len,
            data@ == bytes@.subrange(start as int, start + i),
        decreases len - i,
    {
        data.push(bytes[start + i]);
        assert(bytes@.subrange(start as int, start + i).push(bytes@[start + i]) =~= bytes@.subrange(
            start as int,
            start + i + 1,
        ));
        i += 1;
    }
    assert(data@ =~= tail.subrange(start - at, start - at + len));
    Some((data, start + len))
}

/// The bytes of a text with their number in front.
pub open spec fn framed_text(text: Seq<char>) -> Seq<u8> {
    framed(encode_utf8(text))
}

/// The text that stands at the head of the bytes with the number of its
/// bytes in front, and the number of bytes that both take.
pub open spec fn parse_framed_text(bytes: Seq<u8>) -> Option<(Seq<char>, nat)> {
    match parse_framed(bytes) {
        Some((data, n)) => if valid_utf8(data) {
            Some((decode_utf8(data), n))
        } else {
            None
        },
        None => None,
    }
}

/// A text that was written with its length in front is read back as it
/// was, whatever follows it.
pub proof fn lemma_framed_text_round_trip(text: Seq<char>, rest: Seq<u8>)
    requires
        encode_utf8(text).len() <= u64::MAX,
    ensures
        parse_framed_text(framed_text(text) + rest) == Some((text, framed_text(text).len())),
{
    broadcast use encode_utf8_valid_utf8, encode_utf8_decode_utf8;

    lemma_framed_round_trip(encode_utf8(text), rest);
}

/// Appends a text with the number of its bytes in front.
pub fn put_framed_text(text: &String, buf: &mut Vec<u8>)
    ensures
        final(buf)@ == old(buf)@ + framed_text(text@),
{
    let data = text.as_str().as_bytes_vec();
    put_framed(&data, buf);
}

/// Reads the text that stands at `at` with the number of its bytes in
/// front, and says where the bytes after it begin.
pub fn read_framed_text(bytes: &Vec<u8>, at: usize) -> (r: Option<(String, usize)>)
    requires
        at <= bytes@.len(),
    ensures
        match r {
            Some((text, next)) => {
                &&& parse_framed_text(bytes@.skip(at as int)) == Some((text@, (next - at) as nat))
                &&& at < next <= bytes@.len()
            },
            None => parse_framed_text(bytes@.skip(at as int)) is None,
        },
{
    let (data, next) = match read_framed(bytes, at) {
        Some(pair) => pair,
        None => {
            return None;
        },
    };
    match text_of_bytes(data) {
        Some(text) => Some((text, next)),
        None => None,
    }
}

/// The bytes of a list of byte strings, each with its length in front.
pub open spec fn framed_all(items: Seq<Seq<u8>>) -> Seq<u8>
    decreases items.len(),
{
    if items.len() == 0 {
        Seq::empty()
    } else {
        framed(items[0]) + framed_all(items.skip(1))
    }
}

/// The `count` byte strings that stand at the head of the bytes, each with
/// its length in front, and the number of bytes that they take together.
pub open spec fn parse_framed_all(bytes: Seq<u8>, count: nat) -> Option<(Seq<Seq<u8>>, nat)>
    decreases count,
{
    if count == 0 {
        Some((Seq::empty(), 0nat))
    } else {
        match parse_framed(bytes) {
            None => None,
            Some((first, n)) => match parse_framed_all(bytes.skip(n as int), (count - 1) as nat) {
                None => None,
                Some((rest, m)) => Some((seq![first] + rest, n + m)),
            },
        }
    }
}

/// The bytes of a list with one more item are the bytes of the list and
/// then those of the item.
pub proof fn lemma_framed_all_push(items: Seq<Seq<u8>>, item: Seq<u8>)
    ensures
        framed_all(items.push(item)) == framed_all(items) + framed(item),
    decreases items.len(),
{
    let more = items.push(item);
    if items.len() == 0 {
        assert(more.skip(1) =~= Seq::<Seq<u8>>::empty());
        assert(more[0] == item);
        assert(framed_all(more.skip(1)) =~= Seq::<u8>::empty());
        assert(framed_all(more) =~= framed(item) + framed_all(more.skip(1)));
        assert(framed_all(more) =~= framed(item));
        assert(framed_all(items) + framed(item) =~= framed(item));
    } else {
        assert(more.skip(1) =~= items.skip(1).push(item));
        assert(more[0] == items[0]);
        lemma_framed_all_push(items.skip(1), item);
        assert(framed_all(more) =~= framed_all(items) + framed(item));
    }
}

/// A list that was written item by item is read back as it was, whatever
/// follows it.
pub proof fn lemma_framed_all_round_trip(items: Seq<Seq<u8>>, rest: Seq<u8>)
    requires
        forall|i: int| 0 <= i < items.len() ==> (#[trigger] items[i]).len() <= u64::MAX,
    ensures
        parse_framed_all(framed_all(items) + rest, items.len()) == Some(
            (items, framed_all(items).len()),
        ),
    decreases items.len(),
{
    if items.len() == 0 {
        assert(items =~= Seq::<Seq<u8>>::empty());
    } else {
        let first = items[0];
        let tail = items.skip(1);
        let bytes = framed_all(items) + rest;
        assert(bytes =~= framed(first) + (framed_all(tail) + rest));
        lemma_framed_round_trip(first, framed_all(tail) + rest);
        assert(bytes.skip(framed(first).len() as int) =~= framed_all(tail) + rest);
        assert forall|i: int| 0 <= i < tail.len() implies (#[trigger] tail[i]).len() <= u64::MAX by {
            assert(tail[i] == items[i + 1]);
        }
        lemma_framed_all_round_trip(tail, rest);
        assert(seq![first] + tail =~= items);
    }
}

/// Appends a list of byte strings, each with its length in front.
pub fn put_framed_all(items: &Vec<Vec<u8>>, buf: &mut Vec<u8>)
    ensures
        final(buf)@ == old(buf)@ + framed_all(crate::util::bytes_views(items@)),
{
    let ghost start = buf@;
    let ghost all = crate::util::bytes_views(items@);
    let mut i: usize = 0;
    assert(all.subrange(0, 0) =~= Seq::<Seq<u8>>::empty());
    assert(buf@ =~= start + framed_all(all.subrange(0, 0)));
    while i < items.len()
        invariant
            all == crate::util::bytes_views(items@),
            0 <= i <= items@.len(),
            buf@ == start + framed_all(all.subrange(0, i as int)),
        decreases items@.len() - i,
    {
        let ghost before = buf@;
        put_framed(&items[i], buf);
        proof {
            assert(all[i as int] == items@[i as int]@);
            assert(all.subrange(0, i + 1) =~= all.subrange(0, i as int).push(all[i as int]));
            lemma_framed_all_push(all.subrange(0, i as int), all[i as int]);
            assert(buf@ =~= start + framed_all(all.subrange(0, i + 1)));
        }
        i += 1;
    }
    assert(all.subrange(0, i as int) =~= all);
}

/// Reads the `count` byte strings that stand at `at`, each with its length
/// in front, and says where the bytes after them begin.
pub fn read_framed_all(bytes: &Vec<u8>, at: usize, count: u64) -> (r: Option<(Vec<Vec<u8>>, usize)>)
    requires
        at <= bytes@.len(),
    ensures
        match r {
            Some((items, next)) => {
                &&& parse_framed_all(bytes@.skip(at as int), count as nat) == Some(
                    (crate::util::bytes_views(items@), (next - at) as nat),
                )
                &&& at <= next <= bytes@.len()
            },
            None => parse_framed_all(bytes@.skip(at as int), count as nat) is None,
        },
    decreases count,
{
    if count == 0 {
        let items: Vec<Vec<u8>> = Vec::new();
        assert(crate::util::bytes_views(items@) =~= Seq::<Seq<u8>>::empty());
        return Some((items, at));
    }
    let (first, mid) = match read_framed(bytes, at) {
        Some(pair) => pair,
        None => {
            return None;
        },
    };
    assert(bytes@.skip(at as int).skip(mid - at) =~= bytes@.skip(mid as int));
    let (rest, next) = match read_framed_all(bytes, mid, count - 1) {
        Some(pair) => pair,
        None => {
            return None;
        },
    };
    let mut items: Vec<Vec<u8>> = Vec::new();
    items.push(first);
    let ghost rest_views = crate::util::bytes_views(rest@);
    let mut rest = rest;
    items.append(&mut rest);
    assert(crate::util::bytes_views(items@) =~= seq![first@] + rest_views);
    Some((items, next))
}

} // verus!
