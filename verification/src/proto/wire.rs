//! The wire format of encoded contents and composites: each field is a tag
//! byte and then its value, byte strings and nested messages with their
//! length in front and numbers as variable-length integers. Fields that
//! hold their default are left out.

use vstd::prelude::*;
use vstd::string::*;
use vstd::utf8::encode_utf8;
use crate::codec::{framed, lemma_varint_len, put_framed, put_varint, varint_bytes, varint_size};
use crate::proto::composite::{Composite, Element, ElementView, Part, PartView};
use crate::proto::content::{ContentTypeId, ContentTypeView, ContentView, EncodedContent};

verus! {

/// A field that holds a byte string or a nested message: the tag and the
/// value with its length in front.
pub open spec fn bytes_field(tag: u8, value: Seq<u8>) -> Seq<u8> {
    seq![tag] + framed(value)
}

/// A field that holds a text, left out where the text is empty.
pub open spec fn text_field(tag: u8, text: Seq<char>) -> Seq<u8> {
    if text.len() == 0 {
        Seq::empty()
    } else {
        bytes_field(tag, encode_utf8(text))
    }
}

/// A field that holds a number, left out where the number is 0.
pub open spec fn number_field(tag: u8, value: u64) -> Seq<u8> {
    if value == 0 {
        Seq::empty()
    } else {
        seq![tag] + varint_bytes(value)
    }
}

/// The name of a content type on the wire: the authority, the type and the
/// two parts of the version, as fields one to four.
pub open spec fn content_type_bytes(t: ContentTypeView) -> Seq<u8> {
    text_field(0x0A, t.authority_id) + text_field(0x12, t.type_id) + number_field(
        0x18,
        t.version_major as u64,
    ) + number_field(0x20, t.version_minor as u64)
}

/// One parameter on the wire: its key and its value as fields one and two.
pub open spec fn parameter_bytes(p: (Seq<char>, Seq<char>)) -> Seq<u8> {
    bytes_field(0x0A, encode_utf8(p.0)) + bytes_field(0x12, encode_utf8(p.1))
}

/// The first `n` parameters on the wire, each as a field two.
pub open spec fn parameters_bytes(ps: Seq<(Seq<char>, Seq<char>)>, n: nat) -> Seq<u8>
    decreases n,
{
    if n == 0 || n > ps.len() {
        Seq::empty()
    } else {
        parameters_bytes(ps, (n - 1) as nat) + bytes_field(0x12, parameter_bytes(ps[n - 1]))
    }
}

/// The number that stands for a compression on the wire: the value widened
/// to 64 bits with its sign.
pub open spec fn compression_number(c: i32) -> u64 {
    if c >= 0 {
        c as u64
    } else {
        (u64::MAX - (-(c + 1))) as u64
    }
}

/// The type of an encoded content on the wire, as field one.
pub open spec fn content_head_bytes(c: ContentView) -> Seq<u8> {
    match c.content_type {
        Some(t) => bytes_field(0x0A, content_type_bytes(t)),
        None => Seq::empty(),
    }
}

/// The fallback of an encoded content on the wire, as field three.
pub open spec fn fallback_bytes(c: ContentView) -> Seq<u8> {
    match c.fallback {
        Some(f) => bytes_field(0x1A, encode_utf8(f)),
        None => Seq::empty(),
    }
}

/// The payload of an encoded content on the wire, as field four, left out
/// where it is empty.
pub open spec fn payload_bytes(c: ContentView) -> Seq<u8> {
    if c.content.len() == 0 {
        Seq::empty()
    } else {
        bytes_field(0x22, c.content)
    }
}

/// The compression of an encoded content on the wire, as field five.
pub open spec fn compression_bytes(c: ContentView) -> Seq<u8> {
    match c.compression {
        Some(k) => seq![0x28u8] + varint_bytes(compression_number(k)),
        None => Seq::empty(),
    }
}

/// An encoded content on the wire: the type as field one, the parameters as
/// fields two, the fallback as field three, the payload as field four and
/// the compression as field five.
pub open spec fn content_bytes(c: ContentView) -> Seq<u8> {
    content_head_bytes(c) + parameters_bytes(c.parameters, c.parameters.len()) + fallback_bytes(c)
        + payload_bytes(c) + compression_bytes(c)
}

/// A part on the wire: the encoded content as field one or the nested
/// composite as field two, and nothing where the part holds nothing.
pub open spec fn part_bytes(p: PartView) -> Seq<u8>
    decreases p, 0nat,
{
    match p.element {
        Some(ElementView::Part(c)) => bytes_field(0x0A, content_bytes(c)),
        Some(ElementView::Composite(parts)) => bytes_field(
            0x12,
            composite_prefix_bytes(parts, parts.len()),
        ),
        None => Seq::empty(),
    }
}

/// The first `n` parts of a composite on the wire, each as a field one.
pub open spec fn composite_prefix_bytes(parts: Seq<PartView>, n: nat) -> Seq<u8>
    decreases parts, n,
{
    if n == 0 || n > parts.len() {
        Seq::empty()
    } else {
        composite_prefix_bytes(parts, (n - 1) as nat) + bytes_field(0x0A, part_bytes(parts[n - 1]))
    }
}

/// A composite on the wire: its parts, each as a field one.
pub open spec fn composite_bytes(parts: Seq<PartView>) -> Seq<u8> {
    composite_prefix_bytes(parts, parts.len())
}

/// Appends a field that holds a byte string or a nested message.
fn put_bytes_field(tag: u8, value: &Vec<u8>, buf: &mut Vec<u8>)
    ensures
        final(buf)@ == old(buf)@ + bytes_field(tag, value@),
{
    let ghost start = buf@;
    buf.push(tag);
    put_framed(value, buf);
    assert(buf@ =~= start + bytes_field(tag, value@));
}

/// Appends a field that holds a text, unless the text is empty.
fn put_text_field(tag: u8, text: &String, buf: &mut Vec<u8>)
    ensures
        final(buf)@ == old(buf)@ + text_field(tag, text@),
{
    let ghost start = buf@;
    let data = text.as_str().as_bytes_vec();
    proof {
        lemma_utf8_empty(text@);
    }
    if data.len() > 0 {
        put_bytes_field(tag, &data, buf);
    } else {
        assert(buf@ =~= start + text_field(tag, text@));
    }
}

/// A text is empty exactly where its bytes are.
proof fn lemma_utf8_empty(text: Seq<char>)
    ensures
        encode_utf8(text).len() == 0 <==> text.len() == 0,
{
    if text.len() > 0 {
        vstd::utf8::encode_utf8_first_scalar(text);
        assert(encode_utf8(text).len() > 0);
    }
}

/// Appends a field that holds a number, unless the number is 0.
fn put_number_field(tag: u8, value: u64, buf: &mut Vec<u8>)
    ensures
        final(buf)@ == old(buf)@ + number_field(tag, value),
{
    let ghost start = buf@;
    if value != 0 {
        buf.push(tag);
        put_varint(value, buf);
        assert(buf@ =~= start + number_field(tag, value));
    } else {
        assert(buf@ =~= start + number_field(tag, value));
    }
}

impl ContentTypeId {
    /// Appends the name of the content type in the wire format.
    pub fn write_to(&self, buf: &mut Vec<u8>)
        ensures
            final(buf)@ == old(buf)@ + content_type_bytes(self@),
    {
        let ghost start = buf@;
        put_text_field(0x0A, &self.authority_id, buf);
        put_text_field(0x12, &self.type_id, buf);
        put_number_field(0x18, self.version_major as u64, buf);
        put_number_field(0x20, self.version_minor as u64, buf);
        assert(buf@ =~= start + content_type_bytes(self@));
    }
}

impl EncodedContent {
    /// Appends the type of the content as field one.
    fn write_head(&self, buf: &mut Vec<u8>)
        ensures
            final(buf)@ == old(buf)@ + content_head_bytes(self@),
    {
        let ghost start = buf@;
        match &self.content_type {
            Some(t) => {
                let mut nested: Vec<u8> = Vec::new();
                t.write_to(&mut nested);
                assert(nested@ =~= content_type_bytes(t@));
                put_bytes_field(0x0A, &nested, buf);
            },
            None => {
                assert(buf@ =~= start + content_head_bytes(self@));
            },
        }
    }

    /// Appends the parameters of the content, each as a field two.
    fn write_parameters(&self, buf: &mut Vec<u8>)
        ensures
            final(buf)@ == old(buf)@ + parameters_bytes(self@.parameters, self@.parameters.len()),
    {
        let ghost start = buf@;
        let ghost ps = self@.parameters;
        let mut i: usize = 0;
        assert(buf@ =~= start + parameters_bytes(ps, 0));
        while i < self.parameters.len()
            invariant
                ps == self@.parameters,
                ps.len() == self.parameters@.len(),
                0 <= i <= self.parameters@.len(),
                buf@ == start + parameters_bytes(ps, i as nat),
            decreases self.parameters@.len() - i,
        {
            let pair = &self.parameters[i];
            assert(ps[i as int] == (pair.0@, pair.1@));
            let mut nested: Vec<u8> = Vec::new();
            let key = pair.0.as_str().as_bytes_vec();
            let value = pair.1.as_str().as_bytes_vec();
            put_bytes_field(0x0A, &key, &mut nested);
            put_bytes_field(0x12, &value, &mut nested);
            assert(nested@ =~= parameter_bytes(ps[i as int]));
            put_bytes_field(0x12, &nested, buf);
            assert(buf@ =~= start + parameters_bytes(ps, (i + 1) as nat));
            i += 1;
        }
    }

    /// Appends the fallback of the content as field three.
    fn write_fallback(&self, buf: &mut Vec<u8>)
        ensures
            final(buf)@ == old(buf)@ + fallback_bytes(self@),
    {
        let ghost start = buf@;
        match &self.fallback {
            Some(f) => {
                let data = f.as_str().as_bytes_vec();
                put_bytes_field(0x1A, &data, buf);
            },
            None => {
                assert(buf@ =~= start + fallback_bytes(self@));
            },
        }
    }

    /// Appends the payload of the content as field four.
    fn write_payload(&self, buf: &mut Vec<u8>)
        ensures
            final(buf)@ == old(buf)@ + payload_bytes(self@),
    {
        let ghost start = buf@;
        if self.content.len() > 0 {
            put_bytes_field(0x22, &self.content, buf);
        } else {
            assert(buf@ =~= start + payload_bytes(self@));
        }
    }

    /// Appends the compression of the content as field five.
    fn write_compression(&self, buf: &mut Vec<u8>)
        ensures
            final(buf)@ == old(buf)@ + compression_bytes(self@),
    {
        let ghost start = buf@;
        match self.compression {
            Some(k) => {
                let number: u64 = if k >= 0 {
                    k as u64
                } else {
                    u64::MAX - ((-(k + 1)) as u64)
                };
                buf.push(0x28u8);
                put_varint(number, buf);
                assert(buf@ =~= start + compression_bytes(self@));
            },
            None => {
                assert(buf@ =~= start + compression_bytes(self@));
            },
        }
    }

    /// Appends the encoded content in the wire format.
    pub fn write_to(&self, buf: &mut Vec<u8>)
        ensures
            final(buf)@ == old(buf)@ + content_bytes(self@),
    {
        let ghost start = buf@;
        self.write_head(buf);
        let ghost one = buf@;
        self.write_parameters(buf);
        let ghost two = buf@;
        self.write_fallback(buf);
        let ghost three = buf@;
        self.write_payload(buf);
        let ghost four = buf@;
        self.write_compression(buf);
        proof {
            let c = self@;
            let a = content_head_bytes(c);
            let b = parameters_bytes(c.parameters, c.parameters.len());
            let d = fallback_bytes(c);
            let e = payload_bytes(c);
            let f = compression_bytes(c);
            assert(two =~= start + (a + b));
            assert(three =~= start + (a + b + d));
            assert(four =~= start + (a + b + d + e));
            assert(buf@ =~= start + (a + b + d + e + f));
        }
    }

    /// The encoded content in the wire format.
    pub fn encode(&self) -> (bytes: Vec<u8>)
        ensures
            bytes@ == content_bytes(self@),
    {
        let mut bytes: Vec<u8> = Vec::new();
        self.write_to(&mut bytes);
        assert(bytes@ =~= content_bytes(self@));
        bytes
    }
}

impl Part {
    /// Appends the part in the wire format.
    pub fn write_to(&self, buf: &mut Vec<u8>)
        ensures
            final(buf)@ == old(buf)@ + part_bytes(self@),
        decreases self, 0nat,
    {
        let ghost start = buf@;
        match &self.element {
            Some(Element::Part(c)) => {
                let nested = c.encode();
                put_bytes_field(0x0A, &nested, buf);
            },
            Some(Element::Composite(c)) => {
                let mut nested: Vec<u8> = Vec::new();
                c.write_to(&mut nested);
                assert(nested@ =~= composite_bytes(c@));
                put_bytes_field(0x12, &nested, buf);
            },
            None => {
                assert(buf@ =~= start + part_bytes(self@));
            },
        }
    }
}

impl Composite {
    /// Appends the composite in the wire format.
    pub fn write_to(&self, buf: &mut Vec<u8>)
        ensures
            final(buf)@ == old(buf)@ + composite_bytes(self@),
        decreases self, 1nat,
    {
        let ghost start = buf@;
        let ghost view = self@;
        let mut i: usize = 0;
        assert(buf@ =~= start + composite_prefix_bytes(view, 0));
        while i < self.parts.len()
            invariant
                view == self@,
                view.len() == self.parts.len(),
                0 <= i <= self.parts.len(),
                buf@ == start + composite_prefix_bytes(view, i as nat),
            decreases self.parts.len() - i,
        {
            assert(view[i as int] == self.parts[i as int]@);
            let mut nested: Vec<u8> = Vec::new();
            self.parts[i].write_to(&mut nested);
            assert(nested@ =~= part_bytes(view[i as int]));
            put_bytes_field(0x0A, &nested, buf);
            assert(buf@ =~= start + composite_prefix_bytes(view, (i + 1) as nat));
            i += 1;
        }
    }

    /// The composite in the wire format.
    pub fn write_to_bytes(&self) -> (bytes: Vec<u8>)
        ensures
            bytes@ == composite_bytes(self@),
    {
        let mut bytes: Vec<u8> = Vec::new();
        self.write_to(&mut bytes);
        assert(bytes@ =~= composite_bytes(self@));
        bytes
    }

    /// How many bytes the composite takes in the wire format.
    pub fn compute_size(&self) -> (size: u64)
        requires
            composite_bytes(self@).len() <= u64::MAX,
        ensures
            size == composite_bytes(self@).len(),
        decreases self, 1nat,
    {
        let ghost view = self@;
        let mut my_size: u64 = 0;
        let mut i: usize = 0;
        while i < self.parts.len()
            invariant
                view == self@,
                view.len() == self.parts.len(),
                composite_bytes(view).len() <= u64::MAX,
                0 <= i <= self.parts.len(),
                my_size == composite_prefix_bytes(view, i as nat).len(),
            decreases self.parts.len() - i,
        {
            proof {
                assert(view[i as int] == self.parts[i as int]@);
                lemma_prefix_grows(view, (i + 1) as nat, view.len());
                lemma_varint_len(part_bytes(view[i as int]).len() as u64);
            }
            let len = self.parts[i].compute_size();
            my_size = my_size + (1 + varint_size(len) + len);
            i += 1;
        }
        my_size
    }
}

impl Part {
    /// How many bytes the part takes in the wire format.
    pub fn compute_size(&self) -> (size: u64)
        requires
            part_bytes(self@).len() <= u64::MAX,
        ensures
            size == part_bytes(self@).len(),
        decreases self, 0nat,
    {
        match &self.element {
            Some(Element::Part(v)) => {
                let len = v.compute_size();
                proof {
                    lemma_varint_len(len);
                }
                1 + varint_size(len) + len
            },
            Some(Element::Composite(v)) => {
                proof {
                    assert(part_bytes(self@) == bytes_field(0x12, composite_bytes(v@)));
                    lemma_varint_len(composite_bytes(v@).len() as u64);
                }
                let len = v.compute_size();
                1 + varint_size(len) + len
            },
            None => 0,
        }
    }
}

impl EncodedContent {
    /// How many bytes the encoded content takes in the wire format.
    pub fn compute_size(&self) -> (size: u64)
        ensures
            size == content_bytes(self@).len(),
    {
        let bytes = self.encode();
        bytes.len() as u64
    }
}

/// The more parts of a composite are written, the longer what is written.
pub proof fn lemma_prefix_grows(parts: Seq<PartView>, n: nat, m: nat)
    requires
        n <= m <= parts.len(),
    ensures
        composite_prefix_bytes(parts, n).len() <= composite_prefix_bytes(parts, m).len(),
        n >= 1 ==> composite_prefix_bytes(parts, n).len() == composite_prefix_bytes(
            parts,
            (n - 1) as nat,
        ).len() + 1 + varint_bytes(part_bytes(parts[n - 1]).len() as u64).len() + part_bytes(
            parts[n - 1],
        ).len(),
    decreases m - n,
{
    if n < m {
        lemma_prefix_grows(parts, n + 1, m);
    }
}

} // verus!
