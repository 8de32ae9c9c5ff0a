//! The request/response protocol over the two shared-memory records that
//! the agent and the loader exchange.
//!
//! The caller maps the records and holds each one's lock; this module decides
//! what is read and what is written, and keeps the conversation ids.

use vstd::prelude::*;

verus! {

/// Size of a record's data area.
pub const MAX_SHARED_DATA_SIZE: usize = 4096;

/// Key the agent writes into its output record once it is ready.
pub const WRAPPER_SHM_KEY: u64 = 0xDEADBEEFC0DEFACE;

/// Key the loader writes into its output record once it is ready.
pub const LOADER_SHM_KEY: u64 = 0xCAFEBABEFACEFEED;

/// Name of the record the agent writes.
pub const SHARED_MEMORY_PATH_WRAPPER: &'static str = "scout_shared_memory_wrapper_write";

/// Name of the record the loader writes.
pub const SHARED_MEMORY_PATH_LOADER: &'static str = "scout_shared_memory_loader_write";

/// Message codes of the shared-memory channel; `Idle` (code 0) marks a record
/// that carries no message.
#[derive(Clone, Copy, Debug, PartialEq, Eq, Structural)]
pub enum CommID {
    Idle,
    ReqActiveRuleIds,
    ReqRuleData,
    ResRuleViolation,
    ResActiveRuleIds,
    ResRuleData,
    ResNetworkInfoUpdate,
}

impl CommID {
    pub open spec fn code(self) -> u32 {
        match self {
            CommID::Idle => 0,
            CommID::ReqActiveRuleIds => 1,
            CommID::ReqRuleData => 2,
            CommID::ResRuleViolation => 3,
            CommID::ResActiveRuleIds => 4,
            CommID::ResRuleData => 5,
            CommID::ResNetworkInfoUpdate => 6,
        }
    }

    pub fn from_u32(value: u32) -> (r: Option<CommID>)
        ensures
            value <= 6 ==> r.is_some() && r.unwrap().code() == value,
            value > 6 ==> r.is_none(),
    {
        match value {
            0 => Some(CommID::Idle),
            1 => Some(CommID::ReqActiveRuleIds),
            2 => Some(CommID::ReqRuleData),
            3 => Some(CommID::ResRuleViolation),
            4 => Some(CommID::ResActiveRuleIds),
            5 => Some(CommID::ResRuleData),
            6 => Some(CommID::ResNetworkInfoUpdate),
            _ => None,
        }
    }

    pub fn as_u32(&self) -> (r: u32)
        ensures
            r == self.code(),
    {
        match self {
            CommID::Idle => 0,
            CommID::ReqActiveRuleIds => 1,
            CommID::ReqRuleData => 2,
            CommID::ResRuleViolation => 3,
            CommID::ResActiveRuleIds => 4,
            CommID::ResRuleData => 5,
            CommID::ResNetworkInfoUpdate => 6,
        }
    }
}

/// The contents of a record, without its key and lock.
#[derive(Clone, Copy)]
pub struct RawCommsResponse {
    pub data: [u8; 4096],
    pub size: usize,
    pub current_conversation_id: u32,
    pub request_id: u32,
}

/// What a record holds, as values.
pub struct RecordView {
    pub conversation_id: u32,
    pub request_id: u32,
    pub size: nat,
    pub data: Seq<u8>,
}

impl View for RawCommsResponse {
    type V = RecordView;

    open spec fn view(&self) -> RecordView {
        RecordView {
            conversation_id: self.current_conversation_id,
            request_id: self.request_id,
            size: self.size as nat,
            data: self.data@,
        }
    }
}

impl RawCommsResponse {
    pub open spec fn wf(&self) -> bool {
        self.size <= MAX_SHARED_DATA_SIZE
    }

    pub fn new() -> (r: RawCommsResponse)
        ensures
            r@.conversation_id == 0,
            r@.request_id == 0,
            r@.size == 0,
            r@.data == Seq::new(4096, |_i: int| 0u8),
            r.wf(),
    {
        let r = RawCommsResponse {
            data: [0u8; 4096],
            size: 0,
            current_conversation_id: 0,
            request_id: 0,
        };
        assert(r.data@ =~= Seq::new(4096, |_i: int| 0u8));
        r
    }

    /// The bytes in use: `data[..size]`.
    pub open spec fn payload(&self) -> Seq<u8> {
        self.data@.subrange(0, self.size as int)
    }
}

/// Whether a record with conversation id `current` is new to a reader that
/// last saw `last`: it equals the expected id where one is given, else it
/// differs from the last one seen.
pub open spec fn accepts(current: u32, last: u32, expected: Option<u32>) -> bool {
    match expected {
        Some(c) => current == c,
        None => current != last,
    }
}

/// The conversation id that a write gives: the one supplied, else one past the
/// last one written (wrapping).
pub open spec fn next_conversation_id(last: u32, supplied: Option<u32>) -> u32 {
    match supplied {
        Some(c) => c,
        None => if last == u32::MAX {
            0
        } else {
            (last + 1) as u32
        },
    }
}

/// How many bytes of `data` a write keeps: at most the data area.
pub open spec fn kept_len(len: nat) -> nat {
    if len <= MAX_SHARED_DATA_SIZE {
        len
    } else {
        MAX_SHARED_DATA_SIZE as nat
    }
}

/// The record after a write of `data` under `request_id` and `cid` into `old`.
pub open spec fn written(old: RecordView, request_id: u32, data: Seq<u8>, cid: u32) -> RecordView {
    let n = kept_len(data.len());
    RecordView {
        conversation_id: cid,
        request_id,
        size: n,
        data: data.subrange(0, n as int) + old.data.subrange(n as int, old.data.len() as int),
    }
}

/// The agent's side of the channel: the last conversation id seen on the
/// input record and the last one written to the output record, kept apart.
pub struct ShmChannel {
    last_read_id: u32,
    last_written_id: u32,
}

impl ShmChannel {
    pub closed spec fn last_read(&self) -> u32 {
        self.last_read_id
    }

    pub closed spec fn last_written(&self) -> u32 {
        self.last_written_id
    }

    pub fn new() -> (r: ShmChannel)
        ensures
            r.last_read() == 0,
            r.last_written() == 0,
    {
        ShmChannel { last_read_id: 0, last_written_id: 0 }
    }

    /// Copies the input record out when it is new to this reader, and
    /// remembers its conversation id; otherwise returns nothing.
    pub fn read(&mut self, input: &RawCommsResponse, expected: Option<u32>) -> (r: Option<
        RawCommsResponse,
    >)
        ensures
            accepts(input@.conversation_id, old(self).last_read(), expected) ==> r.is_some()
                && r.unwrap()@ == input@ && final(self).last_read() == input@.conversation_id,
            !accepts(input@.conversation_id, old(self).last_read(), expected) ==> r.is_none()
                && *final(self) == *old(self),
            final(self).last_written() == old(self).last_written(),
    {
        let ok = match expected {
            Some(c) => input.current_conversation_id == c,
            None => input.current_conversation_id != self.last_read_id,
        };
        if !ok {
            return None;
        }
        self.last_read_id = input.current_conversation_id;
        Some(*input)
    }

    /// Writes `data` (cut to the data area) under `request_id` into the
    /// output record, with the conversation id supplied or the next one.
    pub fn write(
        &mut self,
        output: &mut RawCommsResponse,
        request_id: CommID,
        data: &[u8],
        conversation_id: Option<u32>,
    )
        ensures
            final(output)@ == written(
                old(output)@,
                request_id.code(),
                data@,
                next_conversation_id(old(self).last_written(), conversation_id),
            ),
            final(output).wf(),
            final(self).last_written() == final(output)@.conversation_id,
            final(self).last_read() == old(self).last_read(),
    {
        let cid = match conversation_id {
            Some(c) => c,
            None => if self.last_written_id == u32::MAX {
                0
            } else {
                self.last_written_id + 1
            },
        };
        let n = if data.len() <= MAX_SHARED_DATA_SIZE {
            data.len()
        } else {
            MAX_SHARED_DATA_SIZE
        };
        let ghost old_data = output.data@;
        let mut i: usize = 0;
        while i < n
            invariant
                n <= data@.len(),
                n <= 4096,
                i <= n,
                forall|j: int| 0 <= j < i ==> output.data@[j] == data@[j],
                forall|j: int| i <= j < 4096 ==> output.data@[j] == old_data[j],
            decreases n - i,
        {
            output.data[i] = data[i];
            i += 1;
        }
        output.current_conversation_id = cid;
        output.request_id = request_id.as_u32();
        output.size = n;
        assert(output.data@ =~= data@.subrange(0, n as int) + old_data.subrange(
            n as int,
            old_data.len() as int,
        ));
        self.last_written_id = cid;
    }
}

/// Whether the loader has marked its record ready.
pub fn loader_ready(key: u64) -> (r: bool)
    ensures
        r == (key == LOADER_SHM_KEY),
{
    key == LOADER_SHM_KEY
}

/// A request written with conversation id `c` is read back whole by a reader
/// that expects `c`; once read, a reader that expects nothing in particular
/// finds nothing new in the unchanged record.
pub proof fn lemma_conversation_pairing(
    before: RecordView,
    request_id: u32,
    data: Seq<u8>,
    c: u32,
    last_read: u32,
)
    ensures
        ({
            let rec = written(before, request_id, data, c);
            &&& accepts(rec.conversation_id, last_read, Some(c))
            &&& rec.conversation_id == c
            &&& rec.request_id == request_id
            &&& rec.data.subrange(0, rec.size as int) == data.subrange(0, kept_len(data.len()) as int)
            &&& !accepts(rec.conversation_id, rec.conversation_id, None)
        }),
{
    let rec = written(before, request_id, data, c);
    let n = kept_len(data.len());
    assert(rec.data.subrange(0, n as int) =~= data.subrange(0, n as int));
}

} // verus!
