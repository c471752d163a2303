//! Tools of the agent.

pub mod mcp_serve;
