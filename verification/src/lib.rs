//! The logic of the ZeroClaw agent's WeChat channel, session store and MCP server.

pub mod agent;
pub mod channels;
pub mod encoding;
pub mod json;
pub mod random;
pub mod text;
pub mod tools;
