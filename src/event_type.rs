//! Kinds of events a rule applies to.

use crate::text::str_eq;
use vstd::prelude::*;

verus! {

/// A kind of event observed by the loader.
#[allow(non_camel_case_types)]
#[derive(Clone, Copy, Debug, PartialEq, Eq, Structural)]
pub enum EventType {
    Event_None,
    Network_SendPacket,
    Network_ReceivePacket,
    Network_ReceiveConnection,
    Network_CreateConnection,
    Process_Start,
    Process_Exit,
    Process_AccessMemory,
    File_Open,
    File_Modify,
    File_Delete,
    File_Created,
    System_LoginAttempt,
    Agent_Heartbeat,
    Agent_Disconnect,
}

/// The eventtype that a name stands for; unknown names give `Event_None`.
pub open spec fn event_type_named(s: Seq<char>) -> EventType {
    if s == "network.send_packet"@ {
        EventType::Network_SendPacket
    } else if s == "network.receive_packet"@ {
        EventType::Network_ReceivePacket
    } else if s == "network.receive_connection"@ {
        EventType::Network_ReceiveConnection
    } else if s == "network.create_connection"@ {
        EventType::Network_CreateConnection
    } else if s == "process.start"@ {
        EventType::Process_Start
    } else if s == "process.exit"@ {
        EventType::Process_Exit
    } else if s == "process.access_memory"@ {
        EventType::Process_AccessMemory
    } else if s == "file.open"@ {
        EventType::File_Open
    } else if s == "file.modify"@ {
        EventType::File_Modify
    } else if s == "file.delete"@ {
        EventType::File_Delete
    } else if s == "file.created"@ {
        EventType::File_Created
    } else if s == "system.login_attempt"@ {
        EventType::System_LoginAttempt
    } else if s == "agent.heartbeat"@ {
        EventType::Agent_Heartbeat
    } else if s == "agent.disconnect"@ {
        EventType::Agent_Disconnect
    } else {
        EventType::Event_None
    }
}

impl EventType {
    /// The number that stands for this value in the loader's records.
    pub open spec fn code(self) -> u32 {
        match self {
            EventType::Event_None => 0,
            EventType::Network_SendPacket => 1,
            EventType::Network_ReceivePacket => 2,
            EventType::Network_ReceiveConnection => 3,
            EventType::Network_CreateConnection => 4,
            EventType::Process_Start => 5,
            EventType::Process_Exit => 6,
            EventType::Process_AccessMemory => 7,
            EventType::File_Open => 8,
            EventType::File_Modify => 9,
            EventType::File_Delete => 10,
            EventType::File_Created => 11,
            EventType::System_LoginAttempt => 12,
            EventType::Agent_Heartbeat => 13,
            EventType::Agent_Disconnect => 14,
        }
    }

    pub fn as_u32(self) -> (r: u32)
        ensures
            r == self.code(),
    {
        match self {
            EventType::Event_None => 0,
            EventType::Network_SendPacket => 1,
            EventType::Network_ReceivePacket => 2,
            EventType::Network_ReceiveConnection => 3,
            EventType::Network_CreateConnection => 4,
            EventType::Process_Start => 5,
            EventType::Process_Exit => 6,
            EventType::Process_AccessMemory => 7,
            EventType::File_Open => 8,
            EventType::File_Modify => 9,
            EventType::File_Delete => 10,
            EventType::File_Created => 11,
            EventType::System_LoginAttempt => 12,
            EventType::Agent_Heartbeat => 13,
            EventType::Agent_Disconnect => 14,
        }
    }

    pub fn from_string(value: &str) -> (r: EventType)
        ensures
            r == event_type_named(value@),
    {
        if str_eq(value, "network.send_packet") {
            return EventType::Network_SendPacket;
        }
        if str_eq(value, "network.receive_packet") {
            return EventType::Network_ReceivePacket;
        }
        if str_eq(value, "network.receive_connection") {
            return EventType::Network_ReceiveConnection;
        }
        if str_eq(value, "network.create_connection") {
            return EventType::Network_CreateConnection;
        }
        if str_eq(value, "process.start") {
            return EventType::Process_Start;
        }
        if str_eq(value, "process.exit") {
            return EventType::Process_Exit;
        }
        if str_eq(value, "process.access_memory") {
            return EventType::Process_AccessMemory;
        }
        if str_eq(value, "file.open") {
            return EventType::File_Open;
        }
        if str_eq(value, "file.modify") {
            return EventType::File_Modify;
        }
        if str_eq(value, "file.delete") {
            return EventType::File_Delete;
        }
        if str_eq(value, "file.created") {
            return EventType::File_Created;
        }
        if str_eq(value, "system.login_attempt") {
            return EventType::System_LoginAttempt;
        }
        if str_eq(value, "agent.heartbeat") {
            return EventType::Agent_Heartbeat;
        }
        if str_eq(value, "agent.disconnect") {
            return EventType::Agent_Disconnect;
        }
        EventType::Event_None
    }
}
} // verus!
