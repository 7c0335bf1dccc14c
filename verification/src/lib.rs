//! Verified core of the Nexus-VMM runtime: the decisions of the CRI shim,
//! the checks of the secret mapper, and the exec tunnel of the guest agent
//! with its frame format.
pub mod agent;
pub mod cri;
pub mod frame;
pub mod mapper;
