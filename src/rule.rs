//! Rules: as they arrive, expanded, and compiled into the fixed C-layout
//! record that the loader reads.

use crate::condition::{Condition, ConditionValue, RawCondition, MAX_CONDITIONS};
use crate::event_type::{event_type_named, EventType};
use crate::response::{response_type_named, Response, ResponseType};
use vstd::prelude::*;

verus! {

/// Most responses a compiled rule holds.
pub const MAX_RESPONSES: usize = 5;

/// Most event types a rule applies to.
pub const MAX_EVENTS_PER_RULE: usize = 5;

/// Size in bytes of a compiled rule in the loader's layout.
pub const COMPILED_RULE_SIZE: usize = 904;

/// A rule as it arrives from the server.
pub struct RawRule {
    pub id: u64,
    pub order: u64,
    pub name: String,
    pub enabled: bool,
    pub priority: u8,
    pub event_types: Vec<String>,
    pub conditions: Vec<RawCondition>,
    pub responses: Vec<String>,
}

/// What an expanded rule holds.
pub struct RuleView {
    pub id: u64,
    pub order: u64,
    pub name: Seq<char>,
    pub enabled: bool,
    pub priority: u8,
    pub event_types: Seq<EventType>,
    pub conditions: Seq<Condition>,
    pub responses: Seq<Response>,
}

/// An expanded rule: every condition and response it was given.
pub struct Rule {
    id: u64,
    order: u64,
    name: String,
    enabled: bool,
    priority: u8,
    event_types: [EventType; 5],
    conditions: Vec<Condition>,
    responses: Vec<Response>,
}

impl View for Rule {
    type V = RuleView;

    closed spec fn view(&self) -> RuleView {
        RuleView {
            id: self.id,
            order: self.order,
            name: self.name@,
            enabled: self.enabled,
            priority: self.priority,
            event_types: self.event_types@,
            conditions: self.conditions@,
            responses: self.responses@,
        }
    }
}

/// The event type in slot `i` of a rule given the names `names`: the first
/// five names fill the slots, surplus names are dropped, empty slots are
/// `Event_None`.
pub open spec fn event_slot(names: Seq<Seq<char>>, i: int) -> EventType {
    if i < names.len() {
        event_type_named(names[i])
    } else {
        EventType::Event_None
    }
}

/// `r` is the expansion of `raw`: scalars copied, event names mapped into
/// five slots, each condition compiled and each response name mapped.
pub open spec fn expands_to(raw: &RawRule, r: RuleView) -> bool {
    &&& r.id == raw.id
    &&& r.order == raw.order
    &&& r.name == raw.name@
    &&& r.enabled == raw.enabled
    &&& r.priority == raw.priority
    &&& r.event_types.len() == MAX_EVENTS_PER_RULE
    &&& forall|i: int|
        0 <= i < MAX_EVENTS_PER_RULE ==> #[trigger] r.event_types[i] == event_slot(
            raw.event_types@.map_values(|s: String| s@),
            i,
        )
    &&& r.conditions.len() == raw.conditions@.len()
    &&& forall|i: int|
        0 <= i < raw.conditions@.len() ==> #[trigger] r.conditions[i].compiles(&raw.conditions@[i])
    &&& r.responses.len() == raw.responses@.len()
    &&& forall|i: int|
        0 <= i < raw.responses@.len() ==> #[trigger] r.responses[i].type_ == response_type_named(
            raw.responses@[i]@,
        )
}

impl RawRule {
    /// Expands the rule: maps names to enumerations and compiles each
    /// condition.
    pub fn compile(self) -> (r: Rule)
        ensures
            expands_to(&self, r@),
    {
        let ghost names = self.event_types@.map_values(|s: String| s@);
        let ghost raw_conds = self.conditions@;
        let ghost raw_resps = self.responses@;
        let mut event_types = [EventType::Event_None; 5];
        let mut i: usize = 0;
        while i < 5
            invariant
                i <= 5,
                names == self.event_types@.map_values(|s: String| s@),
                forall|j: int| 0 <= j < i ==> #[trigger] event_types@[j] == event_slot(names, j),
                forall|j: int| i <= j < 5 ==> #[trigger] event_types@[j] == EventType::Event_None,
            decreases 5 - i,
        {
            if i < self.event_types.len() {
                event_types[i] = EventType::from_string(self.event_types[i].as_str());
            }
            i += 1;
        }
        let mut builder = RuleBuilder::new().with_id(self.id).with_order(self.order).with_name(
            self.name,
        ).with_priority(self.priority).with_event_types(event_types);
        if self.enabled {
            builder = builder.enabled();
        }
        let mut conds = self.conditions;
        let mut k: usize = 0;
        let n = conds.len();
        while k < n
            invariant
                n == raw_conds.len(),
                k <= n,
                conds@ == raw_conds.subrange(k as int, n as int),
                builder@.conditions.len() == k,
                forall|j: int|
                    0 <= j < k ==> #[trigger] builder@.conditions[j].compiles(&raw_conds[j]),
                builder@.responses.len() == 0,
                builder@.id == self.id,
                builder@.order == self.order,
                builder@.name == self.name@,
                builder@.enabled == self.enabled,
                builder@.priority == self.priority,
                builder@.event_types == event_types@,
            decreases n - k,
        {
            let c = conds.remove(0);
            builder = builder.with_condition(Condition::from_raw(c));
            k += 1;
            assert(conds@ =~= raw_conds.subrange(k as int, n as int));
        }
        let mut m: usize = 0;
        let rn = self.responses.len();
        while m < rn
            invariant
                rn == raw_resps.len(),
                raw_resps == self.responses@,
                m <= rn,
                builder@.responses.len() == m,
                forall|j: int|
                    0 <= j < m ==> #[trigger] builder@.responses[j].type_ == response_type_named(
                        raw_resps[j]@,
                    ),
                builder@.conditions.len() == n,
                forall|j: int|
                    0 <= j < n ==> #[trigger] builder@.conditions[j].compiles(&raw_conds[j]),
                builder@.id == self.id,
                builder@.order == self.order,
                builder@.name == self.name@,
                builder@.enabled == self.enabled,
                builder@.priority == self.priority,
                builder@.event_types == event_types@,
            decreases rn - m,
        {
            builder = builder.with_response(Response::from_string(self.responses[m].as_str()));
            m += 1;
        }
        builder.build()
    }
}

/// The conditions of a compiled rule: at most eight, unused slots zeroed.
#[derive(Clone, Copy)]
pub struct ConditionList {
    pub conditions: [Condition; 8],
    pub length: usize,
}

/// The responses of a compiled rule: at most five, unused slots zeroed.
#[derive(Clone, Copy)]
pub struct ResponseList {
    pub responses: [Response; 5],
    pub length: u32,
}

/// A rule in the fixed layout that the loader reads.
#[derive(Clone, Copy)]
pub struct CompiledRule {
    pub id: u64,
    pub order: u64,
    pub event_types: [EventType; 5],
    pub conditions: ConditionList,
    pub responses: ResponseList,
}

pub open spec fn min_nat(a: nat, b: nat) -> nat {
    if a < b {
        a
    } else {
        b
    }
}

/// `c` is the compiled form of `rule`: ids and event types copied, the first
/// eight conditions and five responses kept, unused slots zeroed.
pub open spec fn compiles_to(rule: RuleView, c: CompiledRule) -> bool {
    &&& c.id == rule.id
    &&& c.order == rule.order
    &&& c.event_types@ == rule.event_types
    &&& c.conditions.length == min_nat(rule.conditions.len(), MAX_CONDITIONS as nat)
    &&& forall|i: int|
        0 <= i < c.conditions.length ==> #[trigger] c.conditions.conditions@[i] == rule.conditions[i]
    &&& forall|i: int|
        c.conditions.length <= i < MAX_CONDITIONS ==> #[trigger] c.conditions.conditions@[i].is_zero()
    &&& c.responses.length == min_nat(rule.responses.len(), MAX_RESPONSES as nat)
    &&& forall|i: int|
        0 <= i < c.responses.length ==> #[trigger] c.responses.responses@[i] == rule.responses[i]
    &&& forall|i: int|
        c.responses.length <= i < MAX_RESPONSES ==> #[trigger] c.responses.responses@[i].type_
            == ResponseType::AirGap
}

impl Rule {
    pub fn compile(&self) -> (r: CompiledRule)
        ensures
            compiles_to(self@, r),
    {
        let zero = Condition::zeroed();
        let mut conds = [zero; 8];
        let count = if self.conditions.len() < MAX_CONDITIONS {
            self.conditions.len()
        } else {
            MAX_CONDITIONS
        };
        let mut i: usize = 0;
        while i < count
            invariant
                count <= 8,
                count <= self.conditions@.len(),
                i <= count,
                zero.is_zero(),
                forall|j: int| 0 <= j < i ==> #[trigger] conds@[j] == self.conditions@[j],
                forall|j: int| i <= j < 8 ==> #[trigger] conds@[j] == zero,
            decreases count - i,
        {
            conds[i] = self.conditions[i];
            i += 1;
        }
        let mut reses = [Response { type_: ResponseType::AirGap }; 5];
        let rcount = if self.responses.len() < MAX_RESPONSES {
            self.responses.len()
        } else {
            MAX_RESPONSES
        };
        let mut k: usize = 0;
        while k < rcount
            invariant
                rcount <= 5,
                rcount <= self.responses@.len(),
                k <= rcount,
                forall|j: int| 0 <= j < k ==> #[trigger] reses@[j] == self.responses@[j],
                forall|j: int| k <= j < 5 ==> #[trigger] reses@[j].type_ == ResponseType::AirGap,
            decreases rcount - k,
        {
            reses[k] = self.responses[k];
            k += 1;
        }
        CompiledRule {
            id: self.id,
            order: self.order,
            event_types: self.event_types,
            conditions: ConditionList { conditions: conds, length: count },
            responses: ResponseList { responses: reses, length: rcount as u32 },
        }
    }

    pub fn id(&self) -> (r: u64)
        ensures
            r == self@.id,
    {
        self.id
    }

    pub fn name(&self) -> (r: &str)
        ensures
            r@ == self@.name,
    {
        self.name.as_str()
    }

    pub fn enabled(&self) -> (r: bool)
        ensures
            r == self@.enabled,
    {
        self.enabled
    }

    pub fn priority(&self) -> (r: u8)
        ensures
            r == self@.priority,
    {
        self.priority
    }

    pub fn event_types(&self) -> (r: &[EventType; 5])
        ensures
            r@ == self@.event_types,
    {
        &self.event_types
    }

    pub fn conditions(&self) -> (r: &Vec<Condition>)
        ensures
            r@ == self@.conditions,
    {
        &self.conditions
    }

    pub fn responses(&self) -> (r: &Vec<Response>)
        ensures
            r@ == self@.responses,
    {
        &self.responses
    }

    pub fn order(&self) -> (r: u64)
        ensures
            r == self@.order,
    {
        self.order
    }
}

/// Builds a rule field by field.
pub struct RuleBuilder {
    curr: Rule,
}

impl View for RuleBuilder {
    type V = RuleView;

    closed spec fn view(&self) -> RuleView {
        self.curr@
    }
}

impl RuleBuilder {
    pub fn new() -> (r: Self)
        ensures
            r@.id == 0,
            r@.order == 0,
            r@.name.len() == 0,
            !r@.enabled,
            r@.priority == 0,
            r@.event_types == Seq::new(5, |_i: int| EventType::Event_None),
            r@.conditions.len() == 0,
            r@.responses.len() == 0,
    {
        let r = RuleBuilder {
            curr: Rule {
                id: 0,
                order: 0,
                name: String::new(),
                enabled: false,
                priority: 0,
                event_types: [EventType::Event_None; 5],
                conditions: Vec::new(),
                responses: Vec::new(),
            },
        };
        assert(r@.event_types =~= Seq::new(5, |_i: int| EventType::Event_None));
        r
    }

    pub fn with_id(self, id: u64) -> (r: Self)
        ensures
            r@ == (RuleView { id, ..self@ }),
    {
        let mut s = self;
        s.curr.id = id;
        s
    }

    pub fn with_order(self, order: u64) -> (r: Self)
        ensures
            r@ == (RuleView { order, ..self@ }),
    {
        let mut s = self;
        s.curr.order = order;
        s
    }

    pub fn with_name(self, name: String) -> (r: Self)
        ensures
            r@ == (RuleView { name: name@, ..self@ }),
    {
        let mut s = self;
        s.curr.name = name;
        s
    }

    pub fn enabled(self) -> (r: Self)
        ensures
            r@ == (RuleView { enabled: true, ..self@ }),
    {
        let mut s = self;
        s.curr.enabled = true;
        s
    }

    pub fn with_priority(self, priority: u8) -> (r: Self)
        ensures
            r@ == (RuleView { priority, ..self@ }),
    {
        let mut s = self;
        s.curr.priority = priority;
        s
    }

    pub fn with_event_types(self, event_types: [EventType; 5]) -> (r: Self)
        ensures
            r@ == (RuleView { event_types: event_types@, ..self@ }),
    {
        let mut s = self;
        s.curr.event_types = event_types;
        s
    }

    pub fn with_condition(self, condition: Condition) -> (r: Self)
        ensures
            r@ == (RuleView { conditions: self@.conditions.push(condition), ..self@ }),
    {
        let mut s = self;
        s.curr.conditions.push(condition);
        s
    }

    pub fn with_response(self, response: Response) -> (r: Self)
        ensures
            r@ == (RuleView { responses: self@.responses.push(response), ..self@ }),
    {
        let mut s = self;
        s.curr.responses.push(response);
        s
    }

    pub fn build(self) -> (r: Rule)
        ensures
            r@ == self@,
    {
        self.curr
    }
}

} // verus!
