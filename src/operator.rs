//! Comparison operators of conditions.

use crate::text::str_eq;
use vstd::prelude::*;

verus! {

/// How a condition compares its two sides.
#[derive(Clone, Copy, Debug, PartialEq, Eq, Structural)]
pub enum Operator {
    Equals,
    NotEquals,
    LowerThan,
    GreaterThan,
    LowerThanOrEqual,
    GreaterThanOrEqual,
    Inside,
    InPayloadAt,
}

/// The operator that a name stands for; unknown names give `Equals`.
pub open spec fn operator_named(s: Seq<char>) -> Operator {
    if s == "equals"@ {
        Operator::Equals
    } else if s == "not_equals"@ {
        Operator::NotEquals
    } else if s == "lower_than"@ {
        Operator::LowerThan
    } else if s == "greater_than"@ {
        Operator::GreaterThan
    } else if s == "lower_than_or_equal"@ {
        Operator::LowerThanOrEqual
    } else if s == "greater_than_or_equal"@ {
        Operator::GreaterThanOrEqual
    } else if s == "inside"@ {
        Operator::Inside
    } else if s == "in_payload_at"@ {
        Operator::InPayloadAt
    } else {
        Operator::Equals
    }
}

impl Operator {
    /// The number that stands for this value in the loader's records.
    pub open spec fn code(self) -> u32 {
        match self {
            Operator::Equals => 0,
            Operator::NotEquals => 1,
            Operator::LowerThan => 2,
            Operator::GreaterThan => 3,
            Operator::LowerThanOrEqual => 4,
            Operator::GreaterThanOrEqual => 5,
            Operator::Inside => 6,
            Operator::InPayloadAt => 7,
        }
    }

    pub fn as_u32(self) -> (r: u32)
        ensures
            r == self.code(),
    {
        match self {
            Operator::Equals => 0,
            Operator::NotEquals => 1,
            Operator::LowerThan => 2,
            Operator::GreaterThan => 3,
            Operator::LowerThanOrEqual => 4,
            Operator::GreaterThanOrEqual => 5,
            Operator::Inside => 6,
            Operator::InPayloadAt => 7,
        }
    }

    pub fn from_string(value: &str) -> (r: Operator)
        ensures
            r == operator_named(value@),
    {
        if str_eq(value, "equals") {
            return Operator::Equals;
        }
        if str_eq(value, "not_equals") {
            return Operator::NotEquals;
        }
        if str_eq(value, "lower_than") {
            return Operator::LowerThan;
        }
        if str_eq(value, "greater_than") {
            return Operator::GreaterThan;
        }
        if str_eq(value, "lower_than_or_equal") {
            return Operator::LowerThanOrEqual;
        }
        if str_eq(value, "greater_than_or_equal") {
            return Operator::GreaterThanOrEqual;
        }
        if str_eq(value, "inside") {
            return Operator::Inside;
        }
        if str_eq(value, "in_payload_at") {
            return Operator::InPayloadAt;
        }
        Operator::Equals
    }
}
} // verus!
