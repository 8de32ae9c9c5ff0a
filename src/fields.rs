//! Length-prefixed, typed field envelopes.
//!
//! Wire form of an envelope: an 8-byte big-endian length of the body, then the
//! body: for each field a 4-byte big-endian length that counts the type byte,
//! the type byte, and the value bytes.

use vstd::prelude::*;
use vstd::string::StringSliceAdditionalSpecFns;
use vstd::utf8::{decode_utf8, valid_utf8};

verus! {

/// Size of the length that precedes each field.
pub const SOCKET_FIELD_LENGTH_SIZE: usize = 4;

/// Size of the length that precedes a whole envelope.
pub const SOCKET_FULL_LENGTH_SIZE: usize = 8;

/// Largest value a field can carry: its length plus the type byte must fit
/// in the 4-byte length.
pub const MAX_FIELD_VALUE_LEN: usize = 0xffff_fffe;

#[derive(Clone, Copy, Debug, PartialEq, Eq, Structural)]
pub enum FieldType {
    Int,
    Raw,
    Text,
}

impl FieldType {
    /// The byte that stands for the type on the wire.
    pub open spec fn code(self) -> u8 {
        match self {
            FieldType::Int => 0,
            FieldType::Raw => 1,
            FieldType::Text => 2,
        }
    }

    pub fn from_u8(val: u8) -> (r: FieldType)
        ensures
            r == field_type_of(val),
    {
        match val {
            0 => FieldType::Int,
            2 => FieldType::Text,
            _ => FieldType::Raw,
        }
    }

    pub fn as_u8(self) -> (r: u8)
        ensures
            r == self.code(),
    {
        match self {
            FieldType::Int => 0,
            FieldType::Raw => 1,
            FieldType::Text => 2,
        }
    }
}

/// The type a received type byte stands for; unknown bytes read as raw.
pub open spec fn field_type_of(b: u8) -> FieldType {
    if b == 0 {
        FieldType::Int
    } else if b == 2 {
        FieldType::Text
    } else {
        FieldType::Raw
    }
}

/// Four bytes, most significant first.
pub open spec fn be32(n: u32) -> Seq<u8> {
    seq![(n >> 24u32) as u8, (n >> 16u32) as u8, (n >> 8u32) as u8, n as u8]
}

pub open spec fn be32_value(s: Seq<u8>) -> u32 {
    ((s[0] as u32) << 24u32) | ((s[1] as u32) << 16u32) | ((s[2] as u32) << 8u32) | (s[3] as u32)
}

/// Eight bytes, most significant first.
pub open spec fn be64(n: u64) -> Seq<u8> {
    seq![
        (n >> 56u64) as u8,
        (n >> 48u64) as u8,
        (n >> 40u64) as u8,
        (n >> 32u64) as u8,
        (n >> 24u64) as u8,
        (n >> 16u64) as u8,
        (n >> 8u64) as u8,
        n as u8,
    ]
}

pub open spec fn be64_value(s: Seq<u8>) -> u64 {
    ((s[0] as u64) << 56u64) | ((s[1] as u64) << 48u64) | ((s[2] as u64) << 40u64) | ((
    s[3] as u64) << 32u64) | ((s[4] as u64) << 24u64) | ((s[5] as u64) << 16u64) | ((s[6] as u64)
        << 8u64) | (s[7] as u64)
}

pub proof fn lemma_be32_round_trip(n: u32)
    ensures
        be32(n).len() == 4,
        be32_value(be32(n)) == n,
{
    let b0 = (n >> 24u32) as u8;
    let b1 = (n >> 16u32) as u8;
    let b2 = (n >> 8u32) as u8;
    let b3 = n as u8;
    assert(((b0 as u32) << 24u32) | ((b1 as u32) << 16u32) | ((b2 as u32) << 8u32) | (b3 as u32)
        == n) by (bit_vector)
        requires
            b0 == (n >> 24u32) as u8,
            b1 == (n >> 16u32) as u8,
            b2 == (n >> 8u32) as u8,
            b3 == n as u8,
    ;
}


pub proof fn lemma_be64_round_trip(n: u64)
    ensures
        be64(n).len() == 8,
        be64_value(be64(n)) == n,
{
    let b0 = (n >> 56u64) as u8;
    let b1 = (n >> 48u64) as u8;
    let b2 = (n >> 40u64) as u8;
    let b3 = (n >> 32u64) as u8;
    let b4 = (n >> 24u64) as u8;
    let b5 = (n >> 16u64) as u8;
    let b6 = (n >> 8u64) as u8;
    let b7 = n as u8;
    assert(((b0 as u64) << 56u64) | ((b1 as u64) << 48u64) | ((b2 as u64) << 40u64) | ((
    b3 as u64) << 32u64) | ((b4 as u64) << 24u64) | ((b5 as u64) << 16u64) | ((b6 as u64)
        << 8u64) | (b7 as u64) == n) by (bit_vector)
        requires
            b0 == (n >> 56u64) as u8,
            b1 == (n >> 48u64) as u8,
            b2 == (n >> 40u64) as u8,
            b3 == (n >> 32u64) as u8,
            b4 == (n >> 24u64) as u8,
            b5 == (n >> 16u64) as u8,
            b6 == (n >> 8u64) as u8,
            b7 == n as u8,
    ;
}

/// A field as a value: its type and its bytes.
pub type FieldValue = (FieldType, Seq<u8>);

/// The wire bytes of one field.
pub open spec fn encode_field(f: FieldValue) -> Seq<u8> {
    be32((f.1.len() + 1) as u32) + seq![f.0.code()] + f.1
}

/// The wire bytes of a sequence of fields, without the envelope length.
pub open spec fn encode_body(s: Seq<FieldValue>) -> Seq<u8>
    decreases s.len(),
{
    if s.len() == 0 {
        Seq::empty()
    } else {
        encode_field(s[0]) + encode_body(s.drop_first())
    }
}

/// The full envelope: body length, then body.
pub open spec fn encode_frame(s: Seq<FieldValue>) -> Seq<u8> {
    be64(encode_body(s).len() as u64) + encode_body(s)
}

/// Reads a body back into fields; `None` when a declared length runs past
/// the end of the buffer, is zero, or a field header is cut short.
pub open spec fn decode_body(b: Seq<u8>) -> Option<Seq<FieldValue>>
    decreases b.len(),
{
    if b.len() == 0 {
        Some(Seq::empty())
    } else if b.len() < 5 {
        None
    } else {
        let l = be32_value(b.subrange(0, 4)) as int;
        if l == 0 || 4 + l > b.len() {
            None
        } else {
            match decode_body(b.subrange(4 + l, b.len() as int)) {
                Some(rest) => Some(seq![(field_type_of(b[4]), b.subrange(5, 4 + l))] + rest),
                None => None,
            }
        }
    }
}

/// Reads a full envelope: the 8-byte length must equal the body's length.
pub open spec fn decode_frame(b: Seq<u8>) -> Option<Seq<FieldValue>> {
    if b.len() >= 8 && be64_value(b.subrange(0, 8)) as int == b.len() - 8 {
        decode_body(b.subrange(8, b.len() as int))
    } else {
        None
    }
}

/// Every field's length, type byte included, fits the 4-byte length.
pub open spec fn values_fit(s: Seq<FieldValue>) -> bool {
    forall|i: int| 0 <= i < s.len() ==> #[trigger] s[i].1.len() <= MAX_FIELD_VALUE_LEN
}

pub proof fn lemma_encode_body_len(s: Seq<FieldValue>)
    ensures
        encode_body(s).len() >= 5 * s.len(),
    decreases s.len(),
{
    if s.len() > 0 {
        lemma_encode_body_len(s.drop_first());
    }
}

pub proof fn lemma_encode_body_push(s: Seq<FieldValue>, f: FieldValue)
    ensures
        encode_body(s.push(f)) == encode_body(s) + encode_field(f),
    decreases s.len(),
{
    if s.len() == 0 {
        assert(s.push(f).drop_first() =~= Seq::<FieldValue>::empty());
        assert(encode_body(s.push(f)) =~= encode_field(f) + encode_body(Seq::<FieldValue>::empty()));
        assert(encode_body(s) + encode_field(f) =~= encode_field(f));
    } else {
        assert(s.push(f).drop_first() =~= s.drop_first().push(f));
        lemma_encode_body_push(s.drop_first(), f);
        assert(encode_body(s.push(f)) =~= encode_field(s[0]) + encode_body(s.drop_first().push(f)));
        assert(encode_body(s.push(f)) =~= encode_body(s) + encode_field(f));
    }
}

/// Decoding the encoding of fields gives the same fields back.
pub proof fn lemma_decode_encode_body(s: Seq<FieldValue>)
    requires
        values_fit(s),
    ensures
        decode_body(encode_body(s)) == Some(s),
    decreases s.len(),
{
    if s.len() == 0 {
        assert(encode_body(s) =~= Seq::<u8>::empty());
    } else {
        let f = s[0];
        let t = s.drop_first();
        assert(values_fit(t)) by {
            assert forall|i: int| 0 <= i < t.len() implies #[trigger] t[i].1.len()
                <= MAX_FIELD_VALUE_LEN by {
                assert(t[i] == s[i + 1]);
            }
        }
        lemma_decode_encode_body(t);
        let b = encode_body(s);
        let n = (f.1.len() + 1) as u32;
        lemma_be32_round_trip(n);
        assert(s[0].1.len() <= MAX_FIELD_VALUE_LEN);
        assert(b =~= be32(n) + seq![f.0.code()] + f.1 + encode_body(t));
        assert(b.subrange(0, 4) =~= be32(n));
        let l = n as int;
        assert(l == f.1.len() + 1);
        assert(b[4] == f.0.code());
        assert(field_type_of(f.0.code()) == f.0);
        assert(b.subrange(5, 4 + l) =~= f.1);
        assert(b.subrange(4 + l, b.len() as int) =~= encode_body(t));
        assert(seq![(field_type_of(b[4]), b.subrange(5, 4 + l))] + t =~= s);
    }
}

/// Decoding an encoded envelope gives the same fields back, in order, with
/// the same types and bytes.
pub proof fn lemma_fields_round_trip(s: Seq<FieldValue>)
    requires
        values_fit(s),
        encode_body(s).len() <= u64::MAX,
    ensures
        decode_frame(encode_frame(s)) == Some(s),
{
    let body = encode_body(s);
    let b = encode_frame(s);
    lemma_be64_round_trip(body.len() as u64);
    assert(b.subrange(0, 8) =~= be64(body.len() as u64));
    assert(b.subrange(8, b.len() as int) =~= body);
    lemma_decode_encode_body(s);
}

/// Why an envelope could not be read or a field could not be taken.
#[derive(Clone, Copy, Debug, PartialEq, Eq, Structural)]
pub enum FieldsError {
    /// A declared length runs past the buffer, or a header is cut short.
    InvalidData,
    /// The cursor stands past the last field.
    OutOfBounds,
    /// The next field has another type than the one asked for.
    TypeMismatch,
}

/// A copy of a byte slice.
pub fn copy_bytes(b: &[u8]) -> (r: Vec<u8>)
    ensures
        r@ == b@,
{
    let mut r: Vec<u8> = Vec::new();
    let mut i: usize = 0;
    while i < b.len()
        invariant
            i <= b.len(),
            r@ == b@.subrange(0, i as int),
        decreases b.len() - i,
    {
        r.push(b[i]);
        i += 1;
    }
    assert(r@ =~= b@);
    r
}

/// Appends `n` as four big-endian bytes.
pub fn push_be32(buf: &mut Vec<u8>, n: u32)
    ensures
        final(buf)@ == old(buf)@ + be32(n),
{
    buf.push((n >> 24u32) as u8);
    buf.push((n >> 16u32) as u8);
    buf.push((n >> 8u32) as u8);
    buf.push(n as u8);
    assert(final(buf)@ =~= old(buf)@ + be32(n));
}

/// Appends `n` as eight big-endian bytes.
pub fn push_be64(buf: &mut Vec<u8>, n: u64)
    ensures
        final(buf)@ == old(buf)@ + be64(n),
{
    buf.push((n >> 56u64) as u8);
    buf.push((n >> 48u64) as u8);
    buf.push((n >> 40u64) as u8);
    buf.push((n >> 32u64) as u8);
    buf.push((n >> 24u64) as u8);
    buf.push((n >> 16u64) as u8);
    buf.push((n >> 8u64) as u8);
    buf.push(n as u8);
    assert(final(buf)@ =~= old(buf)@ + be64(n));
}

/// Reads four big-endian bytes at `at`.
pub fn read_be32(b: &[u8], at: usize) -> (r: u32)
    requires
        at + 4 <= b@.len(),
    ensures
        r == be32_value(b@.subrange(at as int, at + 4)),
{
    ((b[at] as u32) << 24u32) | ((b[at + 1] as u32) << 16u32) | ((b[at + 2] as u32) << 8u32) | (
    b[at + 3] as u32)
}

/// Reads eight big-endian bytes at `at`.
pub fn read_be64(b: &[u8], at: usize) -> (r: u64)
    requires
        at + 8 <= b@.len(),
    ensures
        r == be64_value(b@.subrange(at as int, at + 8)),
{
    ((b[at] as u64) << 56u64) | ((b[at + 1] as u64) << 48u64) | ((b[at + 2] as u64) << 40u64) | ((
    b[at + 3] as u64) << 32u64) | ((b[at + 4] as u64) << 24u64) | ((b[at + 5] as u64) << 16u64)
        | ((b[at + 6] as u64) << 8u64) | (b[at + 7] as u64)
}

/// Relies on `String::from_utf8`: the text that valid UTF-8 bytes encode;
/// invalid bytes are refused, which reads as the empty string.
#[verifier::external_body]
fn utf8_or_empty(b: &[u8]) -> (r: String)
    ensures
        valid_utf8(b@) ==> r@ == decode_utf8(b@),
        !valid_utf8(b@) ==> r@.len() == 0,
{
    String::from_utf8(b.to_vec()).unwrap_or_default()
}

pub struct Field {
    type_: FieldType,
    value: Vec<u8>,
}

impl View for Field {
    type V = FieldValue;

    closed spec fn view(&self) -> FieldValue {
        (self.type_, self.value@)
    }
}

impl Field {
    /// The value fits the field's 4-byte length.
    pub closed spec fn wf(&self) -> bool {
        self.value@.len() <= MAX_FIELD_VALUE_LEN
    }

    pub fn new(type_: FieldType, value: Vec<u8>) -> (r: Field)
        requires
            value@.len() <= MAX_FIELD_VALUE_LEN,
        ensures
            r@ == (type_, value@),
            r.wf(),
    {
        Field { type_, value }
    }

    pub fn new_int(value: i64) -> (r: Field)
        ensures
            r@ == (FieldType::Int, be64(value as u64)),
            r.wf(),
    {
        let mut v: Vec<u8> = Vec::new();
        push_be64(&mut v, value as u64);
        assert(v@ =~= be64(value as u64));
        Field { type_: FieldType::Int, value: v }
    }

    pub fn new_raw(value: Vec<u8>) -> (r: Field)
        requires
            value@.len() <= MAX_FIELD_VALUE_LEN,
        ensures
            r@ == (FieldType::Raw, value@),
            r.wf(),
    {
        Field { type_: FieldType::Raw, value }
    }

    /// A text field holds the UTF-8 bytes of the string.
    pub fn new_str(value: &str) -> (r: Field)
        requires
            value.spec_bytes().len() <= MAX_FIELD_VALUE_LEN,
        ensures
            r@ == (FieldType::Text, value.spec_bytes()),
            r.wf(),
    {
        Field { type_: FieldType::Text, value: copy_bytes(value.as_bytes()) }
    }

    pub fn field_type(&self) -> (r: FieldType)
        ensures
            r == self@.0,
    {
        self.type_
    }

    /// The wire bytes of this field.
    pub fn to_bytes(&self) -> (r: Vec<u8>)
        requires
            self.wf(),
        ensures
            r@ == encode_field(self@),
    {
        let mut r: Vec<u8> = Vec::new();
        push_be32(&mut r, (self.value.len() + 1) as u32);
        r.push(self.type_.as_u8());
        let mut i: usize = 0;
        while i < self.value.len()
            invariant
                i <= self.value@.len(),
                r@ == be32((self.value@.len() + 1) as u32) + seq![self.type_.code()]
                    + self.value@.subrange(0, i as int),
            decreases self.value@.len() - i,
        {
            r.push(self.value[i]);
            i += 1;
            assert(r@ =~= be32((self.value@.len() + 1) as u32) + seq![self.type_.code()]
                + self.value@.subrange(0, i as int));
        }
        assert(self.value@.subrange(0, i as int) =~= self.value@);
        r
    }

    /// A copy of the value bytes.
    pub fn value(&self) -> (r: Vec<u8>)
        ensures
            r@ == self@.1,
    {
        copy_bytes(self.value.as_slice())
    }

    /// The value read as UTF-8 text; bytes that are not valid UTF-8 read as
    /// the empty string.
    pub fn text(&self) -> (r: String)
        ensures
            valid_utf8(self@.1) ==> r@ == decode_utf8(self@.1),
            !valid_utf8(self@.1) ==> r@.len() == 0,
    {
        utf8_or_empty(self.value.as_slice())
    }

    /// The integer of an `Int` field of exactly eight bytes.
    pub fn int_value(&self) -> (r: Option<i64>)
        ensures
            r matches Some(v) ==> self@.0 == FieldType::Int && self@.1 == be64(v as u64),
            r is None ==> self@.0 != FieldType::Int || self@.1.len() != 8,
    {
        if self.type_.as_u8() == 0 && self.value.len() == 8 {
            let n = read_be64(self.value.as_slice(), 0);
            let v = #[verifier::truncate] (n as i64);
            proof {
                assert(#[verifier::truncate] ((#[verifier::truncate] (n as i64)) as u64) == n) by (bit_vector);
                lemma_be64_round_trip(n);
                assert(self.value@.subrange(0, 8) =~= self.value@);
                lemma_be64_inverse(self.value@);
                assert((v as u64) == n);
            }
            Some(v)
        } else {
            None
        }
    }

    fn duplicate(&self) -> (r: Field)
        ensures
            r@ == self@,
    {
        Field { type_: self.type_, value: copy_bytes(self.value.as_slice()) }
    }
}

/// Eight bytes are the encoding of the number they hold.
pub proof fn lemma_be64_inverse(s: Seq<u8>)
    requires
        s.len() == 8,
    ensures
        be64(be64_value(s)) == s,
{
    let b0 = s[0];
    let b1 = s[1];
    let b2 = s[2];
    let b3 = s[3];
    let b4 = s[4];
    let b5 = s[5];
    let b6 = s[6];
    let b7 = s[7];
    let n = be64_value(s);
    assert((n >> 56u64) as u8 == b0 && (n >> 48u64) as u8 == b1 && (n >> 40u64) as u8 == b2 && (n
        >> 32u64) as u8 == b3 && (n >> 24u64) as u8 == b4 && (n >> 16u64) as u8 == b5 && (n
        >> 8u64) as u8 == b6 && n as u8 == b7) by (bit_vector)
        requires
            n == ((b0 as u64) << 56u64) | ((b1 as u64) << 48u64) | ((b2 as u64) << 40u64) | ((
            b3 as u64) << 32u64) | ((b4 as u64) << 24u64) | ((b5 as u64) << 16u64) | ((
            b6 as u64) << 8u64) | (b7 as u64),
    ;
    assert(be64(n) =~= s);
}

/// An envelope of fields with a cursor over them.
pub struct Fields {
    fields: Vec<Field>,
    seek: usize,
}

impl View for Fields {
    type V = Seq<FieldValue>;

    closed spec fn view(&self) -> Seq<FieldValue> {
        self.fields@.map_values(|f: Field| f@)
    }
}

impl Fields {
    pub closed spec fn wf(&self) -> bool {
        forall|i: int| 0 <= i < self.fields@.len() ==> #[trigger] self.fields@[i].wf()
    }

    /// Every value of a well-formed envelope fits its field, so the
    /// round-trip lemmas apply to it.
    pub proof fn lemma_wf_values_fit(&self)
        requires
            self.wf(),
        ensures
            values_fit(self@),
    {
        assert forall|i: int| 0 <= i < self@.len() implies #[trigger] self@[i].1.len()
            <= MAX_FIELD_VALUE_LEN by {
            assert(self.fields@[i].wf());
        }
    }

    /// Where the cursor stands.
    pub closed spec fn cursor(&self) -> nat {
        self.seek as nat
    }

    pub fn new(fields: Vec<Field>) -> (r: Fields)
        requires
            forall|i: int| 0 <= i < fields@.len() ==> #[trigger] fields@[i].wf(),
        ensures
            r@ == fields@.map_values(|f: Field| f@),
            r.cursor() == 0,
            r.wf(),
    {
        Fields { fields, seek: 0 }
    }

    pub fn len(&self) -> (r: usize)
        ensures
            r == self@.len(),
    {
        self.fields.len()
    }

    /// The body of the envelope, without the 8-byte length.
    pub fn to_bytes_no_length(&self) -> (r: Vec<u8>)
        requires
            self.wf(),
        ensures
            r@ == encode_body(self@),
    {
        let mut r: Vec<u8> = Vec::new();
        let mut i: usize = 0;
        while i < self.fields.len()
            invariant
                self.wf(),
                i <= self.fields@.len(),
                r@ == encode_body(self@.subrange(0, i as int)),
            decreases self.fields@.len() - i,
        {
            let mut fb = self.fields[i].to_bytes();
            proof {
                assert(self@.subrange(0, i + 1) =~= self@.subrange(0, i as int).push(self@[i as int]));
                lemma_encode_body_push(self@.subrange(0, i as int), self@[i as int]);
            }
            r.append(&mut fb);
            i += 1;
        }
        assert(self@.subrange(0, i as int) =~= self@);
        r
    }

    /// The full envelope: the body's length as eight big-endian bytes, then
    /// the body.
    pub fn to_bytes(&self) -> (r: Vec<u8>)
        requires
            self.wf(),
        ensures
            r@ == encode_frame(self@),
    {
        let mut body = self.to_bytes_no_length();
        let mut r: Vec<u8> = Vec::new();
        push_be64(&mut r, body.len() as u64);
        r.append(&mut body);
        r
    }

    /// Reads a body (no 8-byte length) into fields, cursor at the start.
    pub fn from_bytes(bytes: &[u8]) -> (r: Result<Fields, FieldsError>)
        ensures
            match decode_body(bytes@) {
                Some(s) => r matches Ok(f) && f@ == s && f.cursor() == 0 && f.wf(),
                None => r == Err::<Fields, FieldsError>(FieldsError::InvalidData),
            },
    {
        let len = bytes.len();
        let mut index: usize = 0;
        let mut out: Vec<Field> = Vec::new();
        proof {
            assert(bytes@.subrange(0, len as int) =~= bytes@);
            match decode_body(bytes@) {
                Some(rest) => {
                    assert(out@.map_values(|f: Field| f@) + rest =~= rest);
                },
                None => {},
            }
        }
        while index < len
            invariant
                len == bytes@.len(),
                index <= len,
                forall|i: int| 0 <= i < out@.len() ==> #[trigger] out@[i].wf(),
                decode_body(bytes@) == match decode_body(bytes@.subrange(index as int, len as int)) {
                    Some(rest) => Some(out@.map_values(|f: Field| f@) + rest),
                    None => None,
                },
            decreases len - index,
        {
            let ghost b = bytes@.subrange(index as int, len as int);
            if len - index < 5 {
                return Err(FieldsError::InvalidData);
            }
            let l = read_be32(bytes, index) as usize;
            proof {
                assert(b.subrange(0, 4) =~= bytes@.subrange(index as int, index + 4));
            }
            if l == 0 || l > len - index - 4 {
                return Err(FieldsError::InvalidData);
            }
            let t = bytes[index + 4];
            let mut value: Vec<u8> = Vec::new();
            let mut j: usize = index + 5;
            while j < index + 4 + l
                invariant
                    index + 5 <= j <= index + 4 + l <= len,
                    len == bytes@.len(),
                    value@ == bytes@.subrange(index + 5, j as int),
                decreases index + 4 + l - j,
            {
                value.push(bytes[j]);
                j += 1;
            }
            let f = Field { type_: FieldType::from_u8(t), value };
            proof {
                assert(b[4] == t);
                assert(b.subrange(5, 4 + l) =~= value@);
                assert(b.subrange(4 + l, b.len() as int) =~= bytes@.subrange(
                    index + 4 + l,
                    len as int,
                ));
                let ghost old_out = out@;
                assert(old_out.push(f).map_values(|f: Field| f@) =~= old_out.map_values(
                    |f: Field| f@,
                ).push(f@));
            }
            let ghost prev = out@;
            out.push(f);
            proof {
                assert(out@ == prev.push(f));
                assert(out@.map_values(|f: Field| f@) =~= prev.map_values(|f: Field| f@).push(f@));
                match decode_body(bytes@.subrange(index + 4 + l, len as int)) {
                    Some(rest) => {
                        assert(prev.map_values(|f: Field| f@) + (seq![f@] + rest) =~= out@.map_values(
                            |f: Field| f@,
                        ) + rest);
                    },
                    None => {},
                }
            }
            index = index + 4 + l;
        }
        proof {
            assert(bytes@.subrange(index as int, len as int) =~= Seq::<u8>::empty());
            assert(out@.map_values(|f: Field| f@) + Seq::<FieldValue>::empty() =~= out@.map_values(
                |f: Field| f@,
            ));
        }
        Ok(Fields { fields: out, seek: 0 })
    }

    /// Reads a full envelope: its 8-byte length must equal the length of the
    /// body that follows.
    pub fn decode(bytes: &[u8]) -> (r: Result<Fields, FieldsError>)
        ensures
            match decode_frame(bytes@) {
                Some(s) => r matches Ok(f) && f@ == s && f.cursor() == 0 && f.wf(),
                None => r == Err::<Fields, FieldsError>(FieldsError::InvalidData),
            },
    {
        if bytes.len() < 8 {
            return Err(FieldsError::InvalidData);
        }
        let n = read_be64(bytes, 0);
        if n != (bytes.len() - 8) as u64 {
            return Err(FieldsError::InvalidData);
        }
        let mut body: Vec<u8> = Vec::new();
        let mut i: usize = 8;
        while i < bytes.len()
            invariant
                8 <= i <= bytes@.len(),
                body@ == bytes@.subrange(8, i as int),
            decreases bytes@.len() - i,
        {
            body.push(bytes[i]);
            i += 1;
        }
        Fields::from_bytes(body.as_slice())
    }

    pub fn seek(&mut self, val: usize)
        ensures
            final(self)@ == old(self)@,
            final(self).cursor() == val,
            final(self).wf() == old(self).wf(),
    {
        self.seek = val;
    }

    /// Takes the next field, whatever its type.
    pub fn consume_field(&mut self) -> (r: Result<Field, FieldsError>)
        ensures
            final(self)@ == old(self)@,
            final(self).wf() == old(self).wf(),
            old(self).cursor() < old(self)@.len() ==> (r matches Ok(f) && f@ == old(self)@[old(
                self,
            ).cursor() as int] && final(self).cursor() == old(self).cursor() + 1),
            old(self).cursor() >= old(self)@.len() ==> r == Err::<Field, FieldsError>(
                FieldsError::OutOfBounds,
            ) && final(self).cursor() == old(self).cursor(),
    {
        if self.seek >= self.fields.len() {
            return Err(FieldsError::OutOfBounds);
        }
        let f = self.fields[self.seek].duplicate();
        self.seek = self.seek + 1;
        Ok(f)
    }

    fn consume_typed(&mut self, want: FieldType) -> (r: Result<Field, FieldsError>)
        ensures
            final(self)@ == old(self)@,
            final(self).wf() == old(self).wf(),
            consumed(old(self)@, old(self).cursor(), want, r),
            old(self).cursor() < old(self)@.len() ==> final(self).cursor() == old(self).cursor() + 1,
            old(self).cursor() >= old(self)@.len() ==> final(self).cursor() == old(self).cursor(),
    {
        let r = self.consume_field();
        match r {
            Ok(f) => {
                if f.field_type().as_u8() == want.as_u8() {
                    Ok(f)
                } else {
                    Err(FieldsError::TypeMismatch)
                }
            },
            Err(e) => Err(e),
        }
    }

    /// Takes the next field, which must be an integer.
    pub fn consume_int_field(&mut self) -> (r: Result<Field, FieldsError>)
        ensures
            final(self)@ == old(self)@,
            final(self).wf() == old(self).wf(),
            consumed(old(self)@, old(self).cursor(), FieldType::Int, r),
            old(self).cursor() < old(self)@.len() ==> final(self).cursor() == old(self).cursor() + 1,
            old(self).cursor() >= old(self)@.len() ==> final(self).cursor() == old(self).cursor(),
    {
        self.consume_typed(FieldType::Int)
    }

    /// Takes the next field, which must be text.
    pub fn consume_text_field(&mut self) -> (r: Result<Field, FieldsError>)
        ensures
            final(self)@ == old(self)@,
            final(self).wf() == old(self).wf(),
            consumed(old(self)@, old(self).cursor(), FieldType::Text, r),
            old(self).cursor() < old(self)@.len() ==> final(self).cursor() == old(self).cursor() + 1,
            old(self).cursor() >= old(self)@.len() ==> final(self).cursor() == old(self).cursor(),
    {
        self.consume_typed(FieldType::Text)
    }

    /// Takes the next field, which must be raw bytes.
    pub fn consume_raw_field(&mut self) -> (r: Result<Field, FieldsError>)
        ensures
            final(self)@ == old(self)@,
            final(self).wf() == old(self).wf(),
            consumed(old(self)@, old(self).cursor(), FieldType::Raw, r),
            old(self).cursor() < old(self)@.len() ==> final(self).cursor() == old(self).cursor() + 1,
            old(self).cursor() >= old(self)@.len() ==> final(self).cursor() == old(self).cursor(),
    {
        self.consume_typed(FieldType::Raw)
    }
}

/// What taking a field of type `want` at `cursor` yields: the field, or why
/// not.
pub open spec fn consumed(
    s: Seq<FieldValue>,
    cursor: nat,
    want: FieldType,
    r: Result<Field, FieldsError>,
) -> bool {
    if cursor >= s.len() {
        r == Err::<Field, FieldsError>(FieldsError::OutOfBounds)
    } else if s[cursor as int].0 != want {
        r == Err::<Field, FieldsError>(FieldsError::TypeMismatch)
    } else {
        r matches Ok(f) && f@ == s[cursor as int]
    }
}

/// Collects fields one by one into an envelope.
pub struct FieldsBuilder {
    fields: Vec<Field>,
}

impl View for FieldsBuilder {
    type V = Seq<FieldValue>;

    closed spec fn view(&self) -> Seq<FieldValue> {
        self.fields@.map_values(|f: Field| f@)
    }
}

impl FieldsBuilder {
    pub closed spec fn wf(&self) -> bool {
        forall|i: int| 0 <= i < self.fields@.len() ==> #[trigger] self.fields@[i].wf()
    }

    pub fn new() -> (r: FieldsBuilder)
        ensures
            r@ == Seq::<FieldValue>::empty(),
            r.wf(),
    {
        let r = FieldsBuilder { fields: Vec::new() };
        assert(r@ =~= Seq::<FieldValue>::empty());
        r
    }

    fn push_field(self, f: Field) -> (r: Self)
        requires
            self.wf(),
            f.wf(),
        ensures
            r@ == self@.push(f@),
            r.wf(),
    {
        let mut s = self;
        let ghost prev = s.fields@;
        s.fields.push(f);
        assert(s.fields@.map_values(|f: Field| f@) =~= prev.map_values(|f: Field| f@).push(f@));
        s
    }

    pub fn add_int(self, value: i64) -> (r: Self)
        requires
            self.wf(),
        ensures
            r@ == self@.push((FieldType::Int, be64(value as u64))),
            r.wf(),
    {
        self.push_field(Field::new_int(value))
    }

    pub fn add_raw(self, value: Vec<u8>) -> (r: Self)
        requires
            self.wf(),
            value@.len() <= MAX_FIELD_VALUE_LEN,
        ensures
            r@ == self@.push((FieldType::Raw, value@)),
            r.wf(),
    {
        self.push_field(Field::new_raw(value))
    }

    pub fn add_str(self, value: &str) -> (r: Self)
        requires
            self.wf(),
            value.spec_bytes().len() <= MAX_FIELD_VALUE_LEN,
        ensures
            r@ == self@.push((FieldType::Text, value.spec_bytes())),
            r.wf(),
    {
        self.push_field(Field::new_str(value))
    }

    pub fn add(self, type_: FieldType, value: Vec<u8>) -> (r: Self)
        requires
            self.wf(),
            value@.len() <= MAX_FIELD_VALUE_LEN,
        ensures
            r@ == self@.push((type_, value@)),
            r.wf(),
    {
        self.push_field(Field::new(type_, value))
    }

    pub fn build(self) -> (r: Fields)
        requires
            self.wf(),
        ensures
            r@ == self@,
            r.cursor() == 0,
            r.wf(),
    {
        Fields::new(self.fields)
    }
}

} // verus!
