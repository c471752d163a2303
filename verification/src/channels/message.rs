//! Messages as all channels exchange them with the agent.

use vstd::prelude::*;

verus! {

/// A file that came with a message.
#[derive(Debug, Clone)]
pub struct MediaAttachment {
    pub file_name: String,
    pub data: Vec<u8>,
    pub mime_type: Option<String>,
}

/// A message that came in through a channel.
#[derive(Debug, Clone)]
pub struct ChannelMessage {
    pub id: String,
    pub sender: String,
    /// Whom to answer
    pub reply_target: String,
    pub content: String,
    /// Name of the channel
    pub channel: String,
    /// Time of creation, in milliseconds
    pub timestamp: u64,
    pub thread_ts: Option<String>,
    pub interruption_scope_id: Option<String>,
    pub attachments: Vec<MediaAttachment>,
}

/// A message to send through a channel.
#[derive(Debug, Clone)]
pub struct SendMessage {
    pub content: String,
    pub recipient: String,
}

} // verus!
