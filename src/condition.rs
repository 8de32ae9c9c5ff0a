//! Conditions of a rule: two sides and an operator.

use crate::data_key::{condition_key_named, ConditionKey};
use crate::operator::{operator_named, Operator};
use base64::Engine;
use vstd::prelude::*;

verus! {

/// Largest literal a condition side can hold, in bytes.
pub const MAX_CONDITION_RAW_VALUE_LENGTH: usize = 32;

/// Most conditions a compiled rule holds.
pub const MAX_CONDITIONS: usize = 8;

/// What standard base64 decoding (with padding) gives for the text `s`.
pub uninterp spec fn base64_decoded(s: Seq<char>) -> Option<Seq<u8>>;

/// Relies on `base64::engine::general_purpose::STANDARD.decode`: the decoded
/// bytes, or nothing where the text is not valid base64.
#[verifier::external_body]
fn base64_decode(s: &str) -> (r: Option<Vec<u8>>)
    ensures
        base64_decoded(s@) is None ==> r.is_none(),
        base64_decoded(s@) is Some ==> r.is_some() && r.unwrap()@ == base64_decoded(s@).unwrap(),
{
    base64::engine::general_purpose::STANDARD.decode(s.as_bytes()).ok()
}

/// One side of a condition as it arrives: a data-key name, or base64 bytes.
pub struct RawConditionValue {
    pub is_key: bool,
    pub value: String,
}

/// A condition as it arrives.
pub struct RawCondition {
    pub key: RawConditionValue,
    pub operator: String,
    pub value: RawConditionValue,
}

/// One side of a compiled condition: a data key (with no literal), or a
/// literal of at most 32 bytes (with key `Condition_None`).
#[derive(Clone, Copy)]
pub struct ConditionValue {
    pub raw_length: usize,
    pub raw: [u8; 32],
    pub key: ConditionKey,
}

/// The literal bytes a side holds: the decoded base64, cut to 32 bytes; an
/// undecodable text holds none.
pub open spec fn literal_of(text: Seq<char>) -> Seq<u8> {
    match base64_decoded(text) {
        Some(d) => if d.len() <= 32 {
            d
        } else {
            d.subrange(0, 32)
        },
        None => Seq::empty(),
    }
}

impl ConditionValue {
    /// A side with no key and no literal; every byte zero.
    pub open spec fn is_zero(&self) -> bool {
        self.raw_length == 0 && self.raw@ == Seq::new(32, |_i: int| 0u8) && self.key
            == ConditionKey::Condition_None
    }

    /// The side holds exactly `key` and the literal `lit`, zero-padded.
    pub open spec fn holds(&self, key: ConditionKey, lit: Seq<u8>) -> bool {
        &&& lit.len() <= 32
        &&& self.key == key
        &&& self.raw_length == lit.len()
        &&& self.raw@ == lit + Seq::new((32 - lit.len()) as nat, |_i: int| 0u8)
    }

    pub fn zeroed() -> (r: ConditionValue)
        ensures
            r.is_zero(),
    {
        let r = ConditionValue { raw_length: 0, raw: [0u8; 32], key: ConditionKey::Condition_None };
        assert(r.raw@ =~= Seq::new(32, |_i: int| 0u8));
        r
    }

    pub fn from_raw(raw: RawConditionValue) -> (r: ConditionValue)
        ensures
            raw.is_key ==> r.holds(condition_key_named(raw.value@), Seq::empty()),
            !raw.is_key ==> r.holds(
                ConditionKey::Condition_None,
                literal_of(raw.value@),
            ),
    {
        if raw.is_key {
            let r = ConditionValue {
                raw_length: 0,
                raw: [0u8; 32],
                key: ConditionKey::from_string(raw.value.as_str()),
            };
            assert(r.raw@ =~= Seq::<u8>::empty() + Seq::new(32, |_i: int| 0u8));
            r
        } else {
            let decoded = match base64_decode(raw.value.as_str()) {
                Some(d) => d,
                None => Vec::new(),
            };
            let ghost lit = literal_of(raw.value@);
            let len = if decoded.len() < 32 {
                decoded.len()
            } else {
                32
            };
            assert(decoded@.subrange(0, len as int) == lit) by {
                assert(decoded@.subrange(0, decoded@.len() as int) =~= decoded@);
            }
            let mut bytes = [0u8; 32];
            let mut i: usize = 0;
            while i < len
                invariant
                    len <= 32,
                    len <= decoded@.len(),
                    i <= len,
                    forall|j: int| 0 <= j < i ==> bytes@[j] == decoded@[j],
                    forall|j: int| i <= j < 32 ==> bytes@[j] == 0u8,
                decreases len - i,
            {
                bytes[i] = decoded[i];
                i += 1;
            }
            assert(bytes@ =~= lit + Seq::new((32 - lit.len()) as nat, |_i: int| 0u8));
            ConditionValue { raw_length: len, raw: bytes, key: ConditionKey::Condition_None }
        }
    }
}

/// A compiled condition.
#[derive(Clone, Copy)]
pub struct Condition {
    pub key: ConditionValue,
    pub op: Operator,
    pub value: ConditionValue,
}

impl Condition {
    /// A condition whose every byte is zero.
    pub open spec fn is_zero(&self) -> bool {
        self.key.is_zero() && self.op == Operator::Equals && self.value.is_zero()
    }

    /// The condition that `raw` compiles to.
    pub open spec fn compiles(&self, raw: &RawCondition) -> bool {
        &&& self.op == operator_named(raw.operator@)
        &&& side_compiles(self.key, &raw.key)
        &&& side_compiles(self.value, &raw.value)
    }

    pub fn zeroed() -> (r: Condition)
        ensures
            r.is_zero(),
    {
        Condition {
            key: ConditionValue::zeroed(),
            op: Operator::Equals,
            value: ConditionValue::zeroed(),
        }
    }

    pub fn from_raw(raw: RawCondition) -> (r: Condition)
        ensures
            r.compiles(&raw),
    {
        let op = Operator::from_string(raw.operator.as_str());
        let key = ConditionValue::from_raw(raw.key);
        let value = ConditionValue::from_raw(raw.value);
        Condition { key, op, value }
    }
}

/// The side that `raw` compiles to.
pub open spec fn side_compiles(v: ConditionValue, raw: &RawConditionValue) -> bool {
    if raw.is_key {
        v.holds(condition_key_named(raw.value@), Seq::empty())
    } else {
        v.holds(ConditionKey::Condition_None, literal_of(raw.value@))
    }
}

} // verus!
