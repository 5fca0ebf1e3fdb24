//! SHA-256 digests over length-framed fields.
//!
//! A record is hashed as a list of byte fields. Each field is written as its
//! length, eight bytes big-endian, followed by its bytes, so no two field lists
//! share an encoding.
use sha2::Digest;
use vstd::prelude::*;

use crate::text;

verus! {

/// The SHA-256 digest of a byte string.
pub uninterp spec fn sha256(data: Seq<u8>) -> Seq<u8>;

/// Calls `sha2::Sha256::digest`. The digest is a function of the bytes and is
/// 32 bytes long.
#[verifier::external_body]
pub(crate) fn sha256_bytes(data: &Vec<u8>) -> (r: Vec<u8>)
    ensures
        r@ == sha256(data@),
        r@.len() == 32,
{
    sha2::Sha256::digest(data).to_vec()
}

/// The lower-case hexadecimal digit of a number below sixteen.
pub open spec fn hex_digit(d: int) -> char {
    if d < 10 {
        (('0' as int) + d) as char
    } else {
        (('a' as int) + d - 10) as char
    }
}

/// Two lower-case hexadecimal digits per byte, high half first.
pub open spec fn hex_text(data: Seq<u8>) -> Seq<char> {
    Seq::new(
        2 * data.len(),
        |i: int| hex_digit(if i % 2 == 0 { data[i / 2] as int / 16 } else { data[i / 2] as int % 16 }),
    )
}

/// The value of a hexadecimal digit of either case.
pub open spec fn hex_value(c: char) -> Option<int> {
    if '0' <= c && c <= '9' {
        Some(c as int - '0' as int)
    } else if 'a' <= c && c <= 'f' {
        Some(c as int - 'a' as int + 10)
    } else if 'A' <= c && c <= 'F' {
        Some(c as int - 'A' as int + 10)
    } else {
        None
    }
}

/// The bytes that a hexadecimal text stands for; none unless it is made of pairs
/// of hexadecimal digits.
pub open spec fn hex_bytes(s: Seq<char>) -> Option<Seq<u8>> {
    if s.len() % 2 == 0 && forall|i: int| 0 <= i < s.len() ==> hex_value(#[trigger] s[i]) is Some {
        Some(
            Seq::new(
                s.len() / 2,
                |i: int| (16 * hex_value(s[2 * i])->0 + hex_value(s[2 * i + 1])->0) as u8,
            ),
        )
    } else {
        None
    }
}

/// Calls `hex::encode`: two lower-case digits per byte.
#[verifier::external_body]
pub(crate) fn hex_encode(data: &Vec<u8>) -> (r: String)
    ensures
        r@ == hex_text(data@),
{
    hex::encode(data)
}

/// Calls `hex::decode`: digits of either case are accepted; a text of odd
/// length, or with any other character, is refused.
#[verifier::external_body]
pub(crate) fn hex_decode(s: &str) -> (r: Option<Vec<u8>>)
    ensures
        r is Some <==> hex_bytes(s@) is Some,
        r is Some ==> hex_bytes(s@) == Some(r->0@),
{
    hex::decode(s).ok()
}

/// Decoding gives back the bytes that were encoded.
pub proof fn law_hex_round_trip(data: Seq<u8>)
    ensures
        hex_bytes(hex_text(data)) == Some(data),
{
    let s = hex_text(data);
    assert forall|i: int| 0 <= i < s.len() implies hex_value(#[trigger] s[i]) is Some by {
        let d = if i % 2 == 0 {
            data[i / 2] as int / 16
        } else {
            data[i / 2] as int % 16
        };
        assert(0 <= d < 16);
        assert(s[i] == hex_digit(d));
    }
    let back = hex_bytes(s)->0;
    assert forall|i: int| 0 <= i < data.len() implies back[i] == data[i] by {
        let hi = data[i] as int / 16;
        let lo = data[i] as int % 16;
        assert((2 * i) / 2 == i && (2 * i) % 2 == 0);
        assert((2 * i + 1) / 2 == i && (2 * i + 1) % 2 == 1);
        assert(s[2 * i] == hex_digit(hi));
        assert(s[2 * i + 1] == hex_digit(lo));
        assert(hex_value(hex_digit(hi)) == Some(hi));
        assert(hex_value(hex_digit(lo)) == Some(lo));
        assert(16 * hi + lo == data[i]);
    }
    assert(back =~= data);
}

proof fn lemma_hex_text_is_hex64(data: Seq<u8>)
    requires
        data.len() == 32,
    ensures
        text::hex64(hex_text(data)),
{
    let s = hex_text(data);
    assert forall|i: int| 0 <= i < s.len() implies text::lower_hex_char(s[i]) by {
        let d = if i % 2 == 0 {
            data[i / 2] as int / 16
        } else {
            data[i / 2] as int % 16
        };
        assert(0 <= d < 16);
        assert(s[i] == hex_digit(d));
    }
}

/// The SHA-256 digest of a byte string, in lower-case hexadecimal.
pub open spec fn content_hash(data: Seq<u8>) -> Seq<char> {
    hex_text(sha256(data))
}

/// The hexadecimal SHA-256 digest of a byte string.
pub fn content_hash_of_bytes(data: &Vec<u8>) -> (r: String)
    ensures
        r@ == content_hash(data@),
        text::hex64(r@),
{
    let raw = sha256_bytes(data);
    proof {
        lemma_hex_text_is_hex64(raw@);
    }
    hex_encode(&raw)
}

/// The last `width` base-256 digits of a number, most significant first.
pub open spec fn be_bytes(n: nat, width: nat) -> Seq<u8>
    decreases width,
{
    if width == 0 {
        Seq::empty()
    } else {
        be_bytes(n / 256, (width - 1) as nat).push((n % 256) as u8)
    }
}

/// Eight bytes of a number, most significant first.
#[verifier::opaque]
pub open spec fn be64(n: u64) -> Seq<u8> {
    be_bytes(n as nat, 8)
}

spec fn pow256(width: nat) -> nat
    decreases width,
{
    if width == 0 {
        1
    } else {
        256 * pow256((width - 1) as nat)
    }
}

proof fn lemma_be_bytes(a: nat, b: nat, width: nat)
    ensures
        be_bytes(a, width).len() == width,
        a < pow256(width) && b < pow256(width) && be_bytes(a, width) == be_bytes(b, width) ==> a
            == b,
    decreases width,
{
    if width > 0 {
        let w = (width - 1) as nat;
        lemma_be_bytes(a / 256, b / 256, w);
        lemma_be_bytes(b / 256, a / 256, w);
        let x = be_bytes(a, width);
        let y = be_bytes(b, width);
        if a < pow256(width) && b < pow256(width) && x == y {
            assert(x.last() == y.last());
            assert(x.drop_last() =~= be_bytes(a / 256, w));
            assert(y.drop_last() =~= be_bytes(b / 256, w));
        }
    }
}

/// Eight bytes stand for one number only.
pub proof fn lemma_be64(a: u64, b: u64)
    ensures
        be64(a).len() == 8,
        be64(a) == be64(b) ==> a == b,
{
    reveal(be64);
    lemma_be_bytes(a as nat, b as nat, 8);
    reveal_with_fuel(pow256, 9);
}

/// A field as it is written: its length, then its bytes.
pub open spec fn framed(field: Seq<u8>) -> Seq<u8> {
    be64(field.len() as u64) + field
}

/// A list of fields as it is written.
pub open spec fn framed_all(fields: Seq<Seq<u8>>) -> Seq<u8>
    decreases fields.len(),
{
    if fields.len() == 0 {
        Seq::empty()
    } else {
        framed_all(fields.drop_last()) + framed(fields.last())
    }
}

/// The field that a text makes.
pub open spec fn text_field(s: Seq<char>) -> Seq<u8> {
    vstd::utf8::encode_utf8(s)
}

/// The hexadecimal digest of a list of fields.
pub open spec fn fields_digest(fields: Seq<Seq<u8>>) -> Seq<char> {
    content_hash(framed_all(fields))
}

/// Every field's length can be written in eight bytes.
pub open spec fn fits_u64(fields: Seq<Seq<u8>>) -> bool {
    forall|i: int| 0 <= i < fields.len() ==> (#[trigger] fields[i]).len() <= u64::MAX
}

proof fn lemma_framed_all_front(fields: Seq<Seq<u8>>)
    requires
        fields.len() > 0,
    ensures
        framed_all(fields) == framed(fields[0]) + framed_all(fields.drop_first()),
    decreases fields.len(),
{
    if fields.len() == 1 {
        assert(fields.drop_last() =~= Seq::empty());
        assert(fields.drop_first() =~= Seq::empty());
        assert(framed_all(fields.drop_last()) =~= Seq::empty());
        assert(Seq::<u8>::empty() + framed(fields[0]) =~= framed(fields[0]));
        assert(framed_all(fields.drop_first()) =~= Seq::empty());
        assert(framed(fields[0]) + Seq::<u8>::empty() =~= framed(fields[0]));
    } else {
        let init = fields.drop_last();
        lemma_framed_all_front(init);
        assert(init.drop_first() =~= fields.drop_first().drop_last());
        assert(fields.drop_first().last() == fields.last());
        assert(framed(fields[0]) + framed_all(init.drop_first()) + framed(fields.last()) =~= framed(
            fields[0],
        ) + (framed_all(init.drop_first()) + framed(fields.last())));
    }
}

/// Two different field lists never share an encoding.
pub proof fn law_framing_injective(a: Seq<Seq<u8>>, b: Seq<Seq<u8>>)
    requires
        fits_u64(a),
        fits_u64(b),
        framed_all(a) == framed_all(b),
    ensures
        a == b,
    decreases a.len(),
{
    if a.len() == 0 && b.len() == 0 {
        assert(a =~= b);
    } else if a.len() == 0 || b.len() == 0 {
        if a.len() > 0 {
            lemma_framed_all_front(a);
            lemma_be64(a[0].len() as u64, 0);
            assert(framed_all(a).len() >= 8);
            assert(framed_all(b).len() == 0);
        } else {
            lemma_framed_all_front(b);
            lemma_be64(b[0].len() as u64, 0);
            assert(framed_all(b).len() >= 8);
            assert(framed_all(a).len() == 0);
        }
        assert(false);
    } else {
        lemma_framed_all_front(a);
        lemma_framed_all_front(b);
        let whole = framed_all(a);
        lemma_be64(a[0].len() as u64, b[0].len() as u64);
        lemma_be64(b[0].len() as u64, a[0].len() as u64);
        assert(whole.take(8) =~= be64(a[0].len() as u64));
        assert(whole.take(8) =~= be64(b[0].len() as u64));
        let n = a[0].len() as int;
        assert(a[0].len() == b[0].len());
        assert(whole.subrange(8, 8 + n) =~= a[0]);
        assert(whole.subrange(8, 8 + n) =~= b[0]);
        assert(whole.skip(8 + n) =~= framed_all(a.drop_first()));
        assert(whole.skip(8 + n) =~= framed_all(b.drop_first()));
        law_framing_injective(a.drop_first(), b.drop_first());
        assert(a =~= seq![a[0]] + a.drop_first());
        assert(b =~= seq![b[0]] + b.drop_first());
    }
}

fn push_be(out: &mut Vec<u8>, n: u64, width: u64)
    ensures
        final(out)@ == old(out)@ + be_bytes(n as nat, width as nat),
    decreases width,
{
    if width > 0 {
        push_be(out, n / 256, width - 1);
        out.push((n % 256) as u8);
    }
    assert(out@ =~= old(out)@ + be_bytes(n as nat, width as nat));
}

pub(crate) fn push_be64(out: &mut Vec<u8>, n: u64)
    ensures
        final(out)@ == old(out)@ + be64(n),
{
    reveal(be64);
    push_be(out, n, 8);
}

/// The bytes of a text.
pub fn bytes_of_text(s: &str) -> (r: Vec<u8>)
    ensures
        r@ == text_field(s@),
{
    let mut out: Vec<u8> = Vec::new();
    push_bytes(&mut out, s.as_bytes());
    assert(out@ =~= text_field(s@));
    out
}

/// The hexadecimal digest of a text.
pub fn hash_of_text(s: &str) -> (r: String)
    ensures
        r@ == content_hash(text_field(s@)),
        text::hex64(r@),
{
    content_hash_of_bytes(&bytes_of_text(s))
}

/// Calls `String::from_utf8`: the text whose encoding the bytes are; none where
/// they are not UTF-8.
#[verifier::external_body]
pub(crate) fn text_of_bytes(bytes: Vec<u8>) -> (r: Option<String>)
    ensures
        r is Some <==> vstd::utf8::valid_utf8(bytes@),
        r matches Some(s) ==> s@ == vstd::utf8::decode_utf8(bytes@),
{
    String::from_utf8(bytes).ok()
}

/// Appends a byte string.
pub(crate) fn push_bytes(out: &mut Vec<u8>, bytes: &[u8])
    ensures
        final(out)@ == old(out)@ + bytes@,
{
    for i in 0..bytes.len()
        invariant
            out@ == old(out)@ + bytes@.take(i as int),
    {
        out.push(bytes[i]);
        assert(out@ =~= old(out)@ + bytes@.take(i + 1));
    }
    assert(bytes@.take(bytes@.len() as int) =~= bytes@);
}

/// Collects fields and hashes them.
pub struct CanonicalEncoder {
    written: Vec<u8>,
    fields: Ghost<Seq<Seq<u8>>>,
}

impl View for CanonicalEncoder {
    type V = Seq<Seq<u8>>;

    /// The fields written so far.
    closed spec fn view(&self) -> Seq<Seq<u8>> {
        self.fields@
    }
}

impl CanonicalEncoder {
    #[verifier::type_invariant]
    spec fn inv(self) -> bool {
        self.written@ == framed_all(self.fields@)
    }

    /// An encoder whose first field names the kind of record.
    pub fn new(domain: &str) -> (r: Self)
        ensures
            r@ == seq![text_field(domain@)],
    {
        let mut value = CanonicalEncoder { written: Vec::new(), fields: Ghost(Seq::empty()) };
        value.text(domain);
        assert(value@ =~= seq![text_field(domain@)]);
        value
    }

    /// Writes a field of bytes.
    pub fn bytes(&mut self, value: &[u8])
        ensures
            final(self)@ == old(self)@.push(value@),
    {
        proof {
            use_type_invariant(&*self);
        }
        let mut written: Vec<u8> = Vec::new();
        push_bytes(&mut written, self.written.as_slice());
        push_be64(&mut written, value.len() as u64);
        push_bytes(&mut written, value);
        let ghost fields = self.fields@.push(value@);
        proof {
            assert(fields.drop_last() =~= self.fields@);
            assert(written@ =~= framed_all(fields));
        }
        *self = CanonicalEncoder { written, fields: Ghost(fields) };
    }

    /// Writes a field of text.
    pub fn text(&mut self, value: &str)
        ensures
            final(self)@ == old(self)@.push(text_field(value@)),
    {
        self.bytes(value.as_bytes());
    }

    /// Writes a presence mark, then the text where there is one.
    pub fn optional_text(&mut self, value: Option<&str>)
        ensures
            final(self)@ == optional_text_fields(
                old(self)@,
                match value {
                    Some(text) => Some(text@),
                    None => None,
                },
            ),
    {
        match value {
            Some(text) => {
                self.mark(true);
                self.text(text);
            },
            None => {
                self.mark(false);
            },
        }
    }

    /// Writes a presence mark.
    pub fn mark(&mut self, present: bool)
        ensures
            final(self)@ == old(self)@.push(mark_field(present)),
    {
        let mut one: Vec<u8> = Vec::new();
        one.push(if present { 1u8 } else { 0u8 });
        assert(one@ =~= mark_field(present));
        self.bytes(one.as_slice());
    }

    /// Writes a number as eight bytes.
    pub fn u64(&mut self, value: u64)
        ensures
            final(self)@ == old(self)@.push(be64(value)),
    {
        let mut eight: Vec<u8> = Vec::new();
        push_be64(&mut eight, value);
        assert(eight@ =~= be64(value));
        self.bytes(eight.as_slice());
    }

    /// The digest of the fields.
    pub fn finish(self) -> (r: String)
        ensures
            r@ == fields_digest(self@),
            text::hex64(r@),
    {
        proof {
            use_type_invariant(&self);
        }
        content_hash_of_bytes(&self.written)
    }
}

/// The one-byte field that says whether a value follows.
pub open spec fn mark_field(present: bool) -> Seq<u8> {
    seq![if present { 1u8 } else { 0u8 }]
}

/// `acc` followed by the fields of an optional text.
pub open spec fn optional_text_fields(acc: Seq<Seq<u8>>, value: Option<Seq<char>>) -> Seq<Seq<u8>> {
    match value {
        Some(text) => acc.push(mark_field(true)).push(text_field(text)),
        None => acc.push(mark_field(false)),
    }
}

} // verus!
