//! Little-endian encodings of the loader's C-layout records.

use crate::condition::{Condition, ConditionValue};
use crate::event_type::EventType;
use crate::response::Response;
use crate::rule::{CompiledRule, COMPILED_RULE_SIZE};
use vstd::prelude::*;

verus! {

pub open spec fn le32(n: u32) -> Seq<u8> {
    seq![n as u8, (n >> 8u32) as u8, (n >> 16u32) as u8, (n >> 24u32) as u8]
}

pub open spec fn le64(n: u64) -> Seq<u8> {
    seq![
        n as u8,
        (n >> 8u64) as u8,
        (n >> 16u64) as u8,
        (n >> 24u64) as u8,
        (n >> 32u64) as u8,
        (n >> 40u64) as u8,
        (n >> 48u64) as u8,
        (n >> 56u64) as u8,
    ]
}

pub open spec fn zeros(k: nat) -> Seq<u8> {
    Seq::new(k, |_i: int| 0u8)
}

/// A condition side: length (8), literal (32), key (4), padding (4).
pub open spec fn value_bytes(v: ConditionValue) -> Seq<u8> {
    le64(v.raw_length as u64) + v.raw@ + le32(v.key.code()) + zeros(4)
}

/// A condition: key side (48), operator (4), padding (4), value side (48).
pub open spec fn condition_bytes(c: Condition) -> Seq<u8> {
    value_bytes(c.key) + le32(c.op.code()) + zeros(4) + value_bytes(c.value)
}

pub open spec fn events_bytes(s: Seq<EventType>) -> Seq<u8>
    decreases s.len(),
{
    if s.len() == 0 {
        Seq::empty()
    } else {
        events_bytes(s.drop_last()) + le32(s.last().code())
    }
}

pub open spec fn conditions_bytes(s: Seq<Condition>) -> Seq<u8>
    decreases s.len(),
{
    if s.len() == 0 {
        Seq::empty()
    } else {
        conditions_bytes(s.drop_last()) + condition_bytes(s.last())
    }
}

pub open spec fn responses_bytes(s: Seq<Response>) -> Seq<u8>
    decreases s.len(),
{
    if s.len() == 0 {
        Seq::empty()
    } else {
        responses_bytes(s.drop_last()) + le32(s.last().type_.code())
    }
}

/// The loader's layout of a compiled rule: id, order, event types, padding
/// to 8, conditions, condition count, responses, response count.
pub open spec fn compiled_rule_bytes(r: CompiledRule) -> Seq<u8> {
    le64(r.id) + le64(r.order) + events_bytes(r.event_types@) + zeros(4) + conditions_bytes(
        r.conditions.conditions@,
    ) + le64(r.conditions.length as u64) + responses_bytes(r.responses.responses@) + le32(
        r.responses.length,
    )
}

proof fn lemma_lengths(r: CompiledRule)
    ensures
        events_bytes(r.event_types@).len() == 20,
        conditions_bytes(r.conditions.conditions@).len() == 832,
        responses_bytes(r.responses.responses@).len() == 20,
{
    lemma_events_len(r.event_types@);
    lemma_conditions_len(r.conditions.conditions@);
    lemma_responses_len(r.responses.responses@);
}

proof fn lemma_events_len(s: Seq<EventType>)
    ensures
        events_bytes(s).len() == 4 * s.len(),
    decreases s.len(),
{
    if s.len() > 0 {
        lemma_events_len(s.drop_last());
    }
}

proof fn lemma_conditions_len(s: Seq<Condition>)
    ensures
        conditions_bytes(s).len() == 104 * s.len(),
    decreases s.len(),
{
    if s.len() > 0 {
        lemma_conditions_len(s.drop_last());
    }
}

proof fn lemma_responses_len(s: Seq<Response>)
    ensures
        responses_bytes(s).len() == 4 * s.len(),
    decreases s.len(),
{
    if s.len() > 0 {
        lemma_responses_len(s.drop_last());
    }
}

pub fn push_le32(buf: &mut Vec<u8>, n: u32)
    ensures
        final(buf)@ == old(buf)@ + le32(n),
{
    buf.push(n as u8);
    buf.push((n >> 8u32) as u8);
    buf.push((n >> 16u32) as u8);
    buf.push((n >> 24u32) as u8);
    assert(final(buf)@ =~= old(buf)@ + le32(n));
}

pub fn push_le64(buf: &mut Vec<u8>, n: u64)
    ensures
        final(buf)@ == old(buf)@ + le64(n),
{
    buf.push(n as u8);
    buf.push((n >> 8u64) as u8);
    buf.push((n >> 16u64) as u8);
    buf.push((n >> 24u64) as u8);
    buf.push((n >> 32u64) as u8);
    buf.push((n >> 40u64) as u8);
    buf.push((n >> 48u64) as u8);
    buf.push((n >> 56u64) as u8);
    assert(final(buf)@ =~= old(buf)@ + le64(n));
}

pub fn push_zeros(buf: &mut Vec<u8>, k: usize)
    ensures
        final(buf)@ == old(buf)@ + zeros(k as nat),
{
    let mut i: usize = 0;
    while i < k
        invariant
            i <= k,
            buf@ == old(buf)@ + zeros(i as nat),
        decreases k - i,
    {
        buf.push(0u8);
        i += 1;
        assert(buf@ =~= old(buf)@ + zeros(i as nat));
    }
}

pub fn push_bytes(buf: &mut Vec<u8>, b: &[u8])
    ensures
        final(buf)@ == old(buf)@ + b@,
{
    let mut i: usize = 0;
    while i < b.len()
        invariant
            i <= b@.len(),
            buf@ == old(buf)@ + b@.subrange(0, i as int),
        decreases b@.len() - i,
    {
        buf.push(b[i]);
        i += 1;
        assert(buf@ =~= old(buf)@ + b@.subrange(0, i as int));
    }
    assert(b@.subrange(0, i as int) =~= b@);
}

fn push_value(buf: &mut Vec<u8>, v: &ConditionValue)
    ensures
        final(buf)@ == old(buf)@ + value_bytes(*v),
{
    push_le64(buf, v.raw_length as u64);
    push_bytes(buf, v.raw.as_slice());
    push_le32(buf, v.key.as_u32());
    push_zeros(buf, 4);
    assert(final(buf)@ =~= old(buf)@ + value_bytes(*v));
}

fn push_condition(buf: &mut Vec<u8>, c: &Condition)
    ensures
        final(buf)@ == old(buf)@ + condition_bytes(*c),
{
    push_value(buf, &c.key);
    push_le32(buf, c.op.as_u32());
    push_zeros(buf, 4);
    push_value(buf, &c.value);
    assert(final(buf)@ =~= old(buf)@ + condition_bytes(*c));
}

impl CompiledRule {
    /// The record byte for byte as the loader reads it.
    pub fn to_bytes(&self) -> (r: Vec<u8>)
        ensures
            r@ == compiled_rule_bytes(*self),
            r@.len() == COMPILED_RULE_SIZE,
    {
        let mut buf: Vec<u8> = Vec::new();
        push_le64(&mut buf, self.id);
        push_le64(&mut buf, self.order);
        let ghost start = buf@;
        let mut i: usize = 0;
        while i < 5
            invariant
                i <= 5,
                buf@ == start + events_bytes(self.event_types@.subrange(0, i as int)),
            decreases 5 - i,
        {
            push_le32(&mut buf, self.event_types[i].as_u32());
            proof {
                assert(self.event_types@.subrange(0, i + 1).drop_last() =~= self.event_types@.subrange(0, i as int));
            }
            i += 1;
            assert(buf@ =~= start + events_bytes(self.event_types@.subrange(0, i as int)));
        }
        assert(self.event_types@.subrange(0, 5) =~= self.event_types@);
        push_zeros(&mut buf, 4);
        let ghost start2 = buf@;
        let mut k: usize = 0;
        while k < 8
            invariant
                k <= 8,
                buf@ == start2 + conditions_bytes(self.conditions.conditions@.subrange(0, k as int)),
            decreases 8 - k,
        {
            push_condition(&mut buf, &self.conditions.conditions[k]);
            proof {
                assert(self.conditions.conditions@.subrange(0, k + 1).drop_last()
                    =~= self.conditions.conditions@.subrange(0, k as int));
            }
            k += 1;
            assert(buf@ =~= start2 + conditions_bytes(self.conditions.conditions@.subrange(0, k as int)));
        }
        assert(self.conditions.conditions@.subrange(0, 8) =~= self.conditions.conditions@);
        push_le64(&mut buf, self.conditions.length as u64);
        let ghost start3 = buf@;
        let mut m: usize = 0;
        while m < 5
            invariant
                m <= 5,
                buf@ == start3 + responses_bytes(self.responses.responses@.subrange(0, m as int)),
            decreases 5 - m,
        {
            push_le32(&mut buf, self.responses.responses[m].type_.as_u32());
            proof {
                assert(self.responses.responses@.subrange(0, m + 1).drop_last()
                    =~= self.responses.responses@.subrange(0, m as int));
            }
            m += 1;
            assert(buf@ =~= start3 + responses_bytes(self.responses.responses@.subrange(0, m as int)));
        }
        assert(self.responses.responses@.subrange(0, 5) =~= self.responses.responses@);
        push_le32(&mut buf, self.responses.length);
        proof {
            lemma_lengths(*self);
            assert(buf@ =~= compiled_rule_bytes(*self));
        }
        buf
    }
}

} // verus!
