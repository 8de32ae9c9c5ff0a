//! User-space control-plane agent: framed field codec, encrypted channel
//! state, handshake steps, rule compilation, shared-memory protocol, loader
//! reports and the decisions of the agent's control loop.

use vstd::prelude::*;

pub mod fields;
pub mod padding;
pub mod channel;
pub mod handshake;
pub mod text;
pub mod event_type;
pub mod data_key;
pub mod operator;
pub mod response;
pub mod condition;
pub mod rule;
pub mod layout;
pub mod shm;
pub mod report;
pub mod network;
pub mod agent;
pub mod logger;

verus! {

} // verus!
