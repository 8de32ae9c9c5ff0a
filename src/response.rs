//! Responses a rule asks for.

use crate::text::str_eq;
use vstd::prelude::*;

verus! {

/// What the loader does when a rule matches.
#[derive(Clone, Copy, Debug, PartialEq, Eq, Structural)]
pub enum ResponseType {
    AirGap,
    Kill,
    Isolate,
    Alert,
    Run,
}

/// The responsetype that a name stands for; unknown names give `Alert`.
pub open spec fn response_type_named(s: Seq<char>) -> ResponseType {
    if s == "airgap"@ {
        ResponseType::AirGap
    } else if s == "kill"@ {
        ResponseType::Kill
    } else if s == "isolate"@ {
        ResponseType::Isolate
    } else if s == "alert"@ {
        ResponseType::Alert
    } else if s == "run"@ {
        ResponseType::Run
    } else {
        ResponseType::Alert
    }
}

impl ResponseType {
    /// The number that stands for this value in the loader's records.
    pub open spec fn code(self) -> u32 {
        match self {
            ResponseType::AirGap => 0,
            ResponseType::Kill => 1,
            ResponseType::Isolate => 2,
            ResponseType::Alert => 3,
            ResponseType::Run => 4,
        }
    }

    pub fn as_u32(self) -> (r: u32)
        ensures
            r == self.code(),
    {
        match self {
            ResponseType::AirGap => 0,
            ResponseType::Kill => 1,
            ResponseType::Isolate => 2,
            ResponseType::Alert => 3,
            ResponseType::Run => 4,
        }
    }

    pub fn type_from_string(value: &str) -> (r: ResponseType)
        ensures
            r == response_type_named(value@),
    {
        if str_eq(value, "airgap") {
            return ResponseType::AirGap;
        }
        if str_eq(value, "kill") {
            return ResponseType::Kill;
        }
        if str_eq(value, "isolate") {
            return ResponseType::Isolate;
        }
        if str_eq(value, "alert") {
            return ResponseType::Alert;
        }
        if str_eq(value, "run") {
            return ResponseType::Run;
        }
        ResponseType::Alert
    }
}

/// The response type a number stands for; unknown numbers give `Alert`.
pub open spec fn response_type_of(value: u32) -> ResponseType {
    if value == 0 {
        ResponseType::AirGap
    } else if value == 1 {
        ResponseType::Kill
    } else if value == 2 {
        ResponseType::Isolate
    } else if value == 4 {
        ResponseType::Run
    } else {
        ResponseType::Alert
    }
}

impl ResponseType {
    pub fn from_u32(value: u32) -> (r: ResponseType)
        ensures
            r == response_type_of(value),
    {
        match value {
            0 => ResponseType::AirGap,
            1 => ResponseType::Kill,
            2 => ResponseType::Isolate,
            4 => ResponseType::Run,
            _ => ResponseType::Alert,
        }
    }
}

#[derive(Clone, Copy, Debug, PartialEq, Eq, Structural)]
pub struct Response {
    pub type_: ResponseType,
}

impl Response {
    /// The response a name stands for; unknown names give an alert.
    pub fn from_string(value: &str) -> (r: Response)
        ensures
            r.type_ == response_type_named(value@),
    {
        Response { type_: ResponseType::type_from_string(value) }
    }
}
} // verus!
