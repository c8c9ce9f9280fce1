//! The tagged gateway event: connection lifecycle events and the
//! state-bearing domain events, as the fan-in pipeline receives them.
//! Each event arrives paired with the originating shard id.

use vstd::prelude::*;

verus! {

/// One event from a shard's gateway connection.
#[derive(Debug, PartialEq, Eq)]
pub enum GatewayEvent {
    /// The gateway greeted the shard and announced its heartbeat interval.
    Hello { heartbeat_interval: u64 },
    /// The remote end invalidated the shard's session; it may or may not be
    /// resumable.
    InvalidSession { resumable: bool },
    /// A fresh identify completed; carries the new session and the bot's
    /// own user id, from which the pipeline learns the fleet's identity.
    Ready { session_id: String, bot_id: u64 },
    /// A resume handshake completed.
    Resumed,
    /// The shard began connecting to the given gateway URL.
    Connecting { url: String },
    /// The shard's connection is established.
    Connected,
    /// The shard's connection closed, with the close code and reason when
    /// the remote end supplied them.
    Disconnected { code: Option<u64>, reason: Option<String> },
    /// The shard began a fresh identify handshake.
    Identifying,
    /// The shard is reconnecting.
    Reconnecting,
    /// The shard began a resume handshake at the given sequence number.
    Resuming { sequence: u64 },
    /// A guild became visible to the fleet.
    GuildCreate { guild_id: u64, name: String },
    /// A message was created.
    MessageCreate { message_id: u64, content: String },
    /// A member's presence changed.
    PresenceUpdate { user_id: u64, status: String },
    /// Any event kind the pipeline does not act on; a no-op by design.
    Other,
}

} // verus!
