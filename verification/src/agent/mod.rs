//! The agent.

pub mod session_record;
