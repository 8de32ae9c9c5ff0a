//! Data keys a condition can refer to.

use crate::text::str_eq;
use vstd::prelude::*;

verus! {

/// An attribute of an event that the loader exposes to conditions.
#[allow(non_camel_case_types)]
#[derive(Clone, Copy, Debug, PartialEq, Eq, Structural)]
pub enum ConditionKey {
    Condition_None,
    Packet_Length,
    Packet_SrcIP,
    Packet_DstIP,
    Packet_SrcPort,
    Packet_DstPort,
    Packet_Payload,
    Packet_Protocol,
    Packet_IsConnectionEstablishing,
    Process_PID,
    Process_Name,
    Process_Path,
    Process_Args,
    Memory_ParentPID,
    Memory_AccessType,
    Memory_AccessAddr,
    File_Path,
    User_Name,
}

/// The conditionkey that a name stands for; unknown names give `Condition_None`.
pub open spec fn condition_key_named(s: Seq<char>) -> ConditionKey {
    if s == "packet.length"@ {
        ConditionKey::Packet_Length
    } else if s == "packet.src_ip"@ {
        ConditionKey::Packet_SrcIP
    } else if s == "packet.dst_ip"@ {
        ConditionKey::Packet_DstIP
    } else if s == "packet.src_port"@ {
        ConditionKey::Packet_SrcPort
    } else if s == "packet.dst_port"@ {
        ConditionKey::Packet_DstPort
    } else if s == "packet.payload"@ {
        ConditionKey::Packet_Payload
    } else if s == "packet.protocol"@ {
        ConditionKey::Packet_Protocol
    } else if s == "packet.is_connection_establishing"@ {
        ConditionKey::Packet_IsConnectionEstablishing
    } else if s == "process.pid"@ {
        ConditionKey::Process_PID
    } else if s == "process.name"@ {
        ConditionKey::Process_Name
    } else if s == "process.path"@ {
        ConditionKey::Process_Path
    } else if s == "process.args"@ {
        ConditionKey::Process_Args
    } else if s == "memory.parent_pid"@ {
        ConditionKey::Memory_ParentPID
    } else if s == "memory.access_type"@ {
        ConditionKey::Memory_AccessType
    } else if s == "memory.access_addr"@ {
        ConditionKey::Memory_AccessAddr
    } else if s == "file.path"@ {
        ConditionKey::File_Path
    } else if s == "user.name"@ {
        ConditionKey::User_Name
    } else {
        ConditionKey::Condition_None
    }
}

impl ConditionKey {
    /// The number that stands for this value in the loader's records.
    pub open spec fn code(self) -> u32 {
        match self {
            ConditionKey::Condition_None => 0,
            ConditionKey::Packet_Length => 1,
            ConditionKey::Packet_SrcIP => 2,
            ConditionKey::Packet_DstIP => 3,
            ConditionKey::Packet_SrcPort => 4,
            ConditionKey::Packet_DstPort => 5,
            ConditionKey::Packet_Payload => 6,
            ConditionKey::Packet_Protocol => 7,
            ConditionKey::Packet_IsConnectionEstablishing => 8,
            ConditionKey::Process_PID => 9,
            ConditionKey::Process_Name => 10,
            ConditionKey::Process_Path => 11,
            ConditionKey::Process_Args => 12,
            ConditionKey::Memory_ParentPID => 13,
            ConditionKey::Memory_AccessType => 14,
            ConditionKey::Memory_AccessAddr => 15,
            ConditionKey::File_Path => 16,
            ConditionKey::User_Name => 17,
        }
    }

    pub fn as_u32(self) -> (r: u32)
        ensures
            r == self.code(),
    {
        match self {
            ConditionKey::Condition_None => 0,
            ConditionKey::Packet_Length => 1,
            ConditionKey::Packet_SrcIP => 2,
            ConditionKey::Packet_DstIP => 3,
            ConditionKey::Packet_SrcPort => 4,
            ConditionKey::Packet_DstPort => 5,
            ConditionKey::Packet_Payload => 6,
            ConditionKey::Packet_Protocol => 7,
            ConditionKey::Packet_IsConnectionEstablishing => 8,
            ConditionKey::Process_PID => 9,
            ConditionKey::Process_Name => 10,
            ConditionKey::Process_Path => 11,
            ConditionKey::Process_Args => 12,
            ConditionKey::Memory_ParentPID => 13,
            ConditionKey::Memory_AccessType => 14,
            ConditionKey::Memory_AccessAddr => 15,
            ConditionKey::File_Path => 16,
            ConditionKey::User_Name => 17,
        }
    }

    pub fn from_string(value: &str) -> (r: ConditionKey)
        ensures
            r == condition_key_named(value@),
    {
        if str_eq(value, "packet.length") {
            return ConditionKey::Packet_Length;
        }
        if str_eq(value, "packet.src_ip") {
            return ConditionKey::Packet_SrcIP;
        }
        if str_eq(value, "packet.dst_ip") {
            return ConditionKey::Packet_DstIP;
        }
        if str_eq(value, "packet.src_port") {
            return ConditionKey::Packet_SrcPort;
        }
        if str_eq(value, "packet.dst_port") {
            return ConditionKey::Packet_DstPort;
        }
        if str_eq(value, "packet.payload") {
            return ConditionKey::Packet_Payload;
        }
        if str_eq(value, "packet.protocol") {
            return ConditionKey::Packet_Protocol;
        }
        if str_eq(value, "packet.is_connection_establishing") {
            return ConditionKey::Packet_IsConnectionEstablishing;
        }
        if str_eq(value, "process.pid") {
            return ConditionKey::Process_PID;
        }
        if str_eq(value, "process.name") {
            return ConditionKey::Process_Name;
        }
        if str_eq(value, "process.path") {
            return ConditionKey::Process_Path;
        }
        if str_eq(value, "process.args") {
            return ConditionKey::Process_Args;
        }
        if str_eq(value, "memory.parent_pid") {
            return ConditionKey::Memory_ParentPID;
        }
        if str_eq(value, "memory.access_type") {
            return ConditionKey::Memory_AccessType;
        }
        if str_eq(value, "memory.access_addr") {
            return ConditionKey::Memory_AccessAddr;
        }
        if str_eq(value, "file.path") {
            return ConditionKey::File_Path;
        }
        if str_eq(value, "user.name") {
            return ConditionKey::User_Name;
        }
        ConditionKey::Condition_None
    }
}
} // verus!
