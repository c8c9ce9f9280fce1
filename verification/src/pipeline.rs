//! The event fan-in pipeline: per event, learn the fleet identity from the
//! first ready event, apply the state-cache update (bounded in time by the
//! caller), then dispatch to the structured log and the curated
//! notifications. One pipeline instance serves one cluster's stream;
//! ordering is per shard only.

use crate::cache::{spec_cache_write, CacheSettings, Store};
use crate::events::GatewayEvent;
use vstd::prelude::*;

verus! {

/// Notification color for an established connection.
pub const CONNECT_COLOR: u32 = 0x2ECC71;

/// Notification color for a lost connection.
pub const DISCONNECT_COLOR: u32 = 0xE74C3C;

/// Notification color for a completed identify.
pub const READY_COLOR: u32 = 0x3498DB;

/// Notification color for a completed resume.
pub const RESUME_COLOR: u32 = 0xF1C40F;

/// Notification color for a first-seen guild.
pub const JOIN_COLOR: u32 = 0x9B59B6;

/// State one cluster's pipeline carries between events: the bot identity,
/// learned once from the first ready event it observes.
#[derive(Clone, Copy, Debug, PartialEq, Eq, Structural)]
pub struct PipelineState {
    pub bot_id: Option<u64>,
}

impl PipelineState {
    /// A pipeline that has not yet seen a ready event.
    pub fn new() -> (r: Self)
        ensures
            r.bot_id is None,
    {
        PipelineState { bot_id: None }
    }
}

/// How the environment disposed of the bounded-time cache update: it
/// completed within the bound, it failed inside the store, or it exceeded
/// the bound.
#[derive(Clone, Copy, Debug, PartialEq, Eq, Structural)]
pub enum UpdateFate {
    Completed,
    Failed,
    TimedOut,
}

/// The warning the pipeline logs when a cache update does not complete;
/// never fatal, never retried.
#[derive(Clone, Copy, Debug, PartialEq, Eq, Structural)]
pub enum CacheWarning {
    UpdateFailed { shard: u64 },
    UpdateTimedOut { shard: u64 },
}

/// The structured log line an event produces.
#[derive(Debug, PartialEq, Eq)]
pub enum LogMessage {
    Hello { shard: u64, heartbeat_interval: u64 },
    InvalidSession { shard: u64, resumable: bool },
    Ready { shard: u64, session_id: String },
    Resumed { shard: u64 },
    Connecting { shard: u64, url: String },
    Connected { shard: u64 },
    /// The close code and reason as far as the remote end supplied them:
    /// the reason is kept only when a code is present and it is nonempty.
    Disconnected { shard: u64, code: Option<u64>, reason: Option<String> },
    Identifying { shard: u64 },
    Reconnecting { shard: u64 },
    Resuming { shard: u64, sequence: u64 },
}

/// An operator-visible notification: a kind-specific color and the kind
/// with its payload.
#[derive(Debug, PartialEq, Eq)]
pub enum Notification {
    Ready { color: u32, shard: u64 },
    Resumed { color: u32, shard: u64 },
    Connected { color: u32, shard: u64 },
    /// Carries the close code when the remote end supplied one, and the
    /// reason exactly when it is present and nonempty.
    Disconnected { color: u32, shard: u64, code: Option<u64>, reason: Option<String> },
    /// A guild seen for the first time; suppressed when the cache held a
    /// prior value for it (a re-arrival on reconnect or resume).
    GuildJoin { color: u32, guild_id: u64, name: String },
}

/// Everything one event's processing emits besides the cache write.
#[derive(Debug, PartialEq, Eq)]
pub struct StepOutput {
    /// The warning, if the cache update failed or timed out.
    pub warning: Option<CacheWarning>,
    /// The structured log line; unhandled kinds log nothing.
    pub log: Option<LogMessage>,
    /// The curated notification, if the event warrants one.
    pub notification: Option<Notification>,
}

/// The bot identity after seeing `event`: learned from the first ready
/// event while the cache is enabled, then never changed.
pub open spec fn spec_learned(prev: Option<u64>, event: GatewayEvent, enabled: bool) -> Option<
    u64,
> {
    if enabled && prev is None {
        match event {
            GatewayEvent::Ready { bot_id, .. } => Some(bot_id),
            _ => prev,
        }
    } else {
        prev
    }
}

/// Whether the pipeline submits this event to the cache at all: only with
/// the cache enabled and the bot identity already learned (the ready event
/// that teaches it counts, as learning precedes the update).
pub open spec fn spec_attempts_update(
    state: PipelineState,
    event: GatewayEvent,
    settings: CacheSettings,
) -> bool {
    settings.enabled && spec_learned(state.bot_id, event, settings.enabled) is Some
}

/// The log line `event` produces on `shard`; unhandled kinds produce none,
/// and a disconnect keeps its reason only when a close code is present and
/// the reason is nonempty.
pub open spec fn spec_log(shard: u64, event: GatewayEvent) -> Option<LogMessage> {
    match event {
        GatewayEvent::Hello { heartbeat_interval } => Some(
            LogMessage::Hello { shard, heartbeat_interval },
        ),
        GatewayEvent::InvalidSession { resumable } => Some(
            LogMessage::InvalidSession { shard, resumable },
        ),
        GatewayEvent::Ready { session_id, .. } => Some(LogMessage::Ready { shard, session_id }),
        GatewayEvent::Resumed => Some(LogMessage::Resumed { shard }),
        GatewayEvent::Connecting { url } => Some(LogMessage::Connecting { shard, url }),
        GatewayEvent::Connected => Some(LogMessage::Connected { shard }),
        GatewayEvent::Disconnected { code, reason } => Some(
            LogMessage::Disconnected {
                shard,
                code,
                reason: match (code, reason) {
                    (Some(_), Some(r)) => if r@.len() > 0 {
                        Some(r)
                    } else {
                        None
                    },
                    _ => None,
                },
            },
        ),
        GatewayEvent::Identifying => Some(LogMessage::Identifying { shard }),
        GatewayEvent::Reconnecting => Some(LogMessage::Reconnecting { shard }),
        GatewayEvent::Resuming { sequence } => Some(LogMessage::Resuming { shard, sequence }),
        GatewayEvent::GuildCreate { .. } => None,
        GatewayEvent::MessageCreate { .. } => None,
        GatewayEvent::PresenceUpdate { .. } => None,
        GatewayEvent::Other => None,
    }
}

/// The reason a disconnect reports outward: kept exactly when it is
/// present and nonempty.
pub open spec fn spec_kept_reason(reason: Option<String>) -> Option<String> {
    match reason {
        Some(r) => if r@.len() > 0 {
            Some(r)
        } else {
            None
        },
        None => None,
    }
}

/// The notification `event` warrants, given the prior cache value the
/// update reported: the curated connection-lifecycle kinds always notify —
/// a disconnect with its close code when present and its reason when
/// nonempty — and a guild creation notifies only when no prior value was
/// reported, so a re-arrival after reconnect or resume stays quiet.
pub open spec fn spec_notification(
    shard: u64,
    event: GatewayEvent,
    old_value: Option<String>,
) -> Option<Notification> {
    match event {
        GatewayEvent::Ready { .. } => Some(Notification::Ready { color: READY_COLOR, shard }),
        GatewayEvent::Resumed => Some(Notification::Resumed { color: RESUME_COLOR, shard }),
        GatewayEvent::Connected => Some(Notification::Connected { color: CONNECT_COLOR, shard }),
        GatewayEvent::Disconnected { code, reason } => Some(
            Notification::Disconnected {
                color: DISCONNECT_COLOR,
                shard,
                code,
                reason: spec_kept_reason(reason),
            },
        ),
        GatewayEvent::GuildCreate { guild_id, name } => if old_value is None {
            Some(Notification::GuildJoin { color: JOIN_COLOR, guild_id, name })
        } else {
            None
        },
        _ => None,
    }
}

/// The prior value the dispatch sees: what a completed update reported;
/// a skipped, failed or timed-out update is treated as "no prior value".
pub open spec fn spec_old_value(
    attempted: bool,
    fate: UpdateFate,
    state: Store,
    event: GatewayEvent,
    settings: CacheSettings,
) -> Option<String> {
    if attempted && fate == UpdateFate::Completed {
        match spec_cache_write(event, settings) {
            Some(w) => if settings.capture_old && state.has_key(w.key) {
                Some(state.lookup(w.key)->Some_0.value)
            } else {
                None
            },
            None => None,
        }
    } else {
        None
    }
}

/// Learns the fleet identity from the first ready event observed while
/// the cache is enabled; later events never change it.
pub fn learn_identity(state: &mut PipelineState, event: &GatewayEvent, enabled: bool)
    ensures
        final(state).bot_id == spec_learned(old(state).bot_id, *event, enabled),
{
    if enabled {
        if state.bot_id.is_none() {
            if let GatewayEvent::Ready { bot_id, .. } = event {
                state.bot_id = Some(*bot_id);
            }
        }
    }
}

/// Whether the pipeline submits events to the cache: only with the cache
/// enabled and the fleet identity already learned.
pub fn wants_cache_update(state: &PipelineState, settings: &CacheSettings) -> (r: bool)
    ensures
        r == (settings.enabled && state.bot_id is Some),
{
    settings.enabled && state.bot_id.is_some()
}

/// Dispatches one event after its cache update (if any) was disposed of:
/// emits the warning for a failed or timed-out update, the structured log
/// line, and the curated notification — the first-seen notification fires
/// exactly when the update reported no prior value.
pub fn dispatch(
    shard: u64,
    event: &GatewayEvent,
    attempted: bool,
    fate: UpdateFate,
    old_value: Option<String>,
) -> (out: StepOutput)
    requires
        attempted && fate == UpdateFate::Completed || old_value is None,
    ensures
        out.warning == (if attempted && fate == UpdateFate::Failed {
            Some(CacheWarning::UpdateFailed { shard })
        } else if attempted && fate == UpdateFate::TimedOut {
            Some(CacheWarning::UpdateTimedOut { shard })
        } else {
            None::<CacheWarning>
        }),
        out.log == spec_log(shard, *event),
        out.notification == spec_notification(shard, *event, old_value),
{
    let warning: Option<CacheWarning> = if attempted {
        match fate {
            UpdateFate::Completed => None,
            UpdateFate::Failed => Some(CacheWarning::UpdateFailed { shard }),
            UpdateFate::TimedOut => Some(CacheWarning::UpdateTimedOut { shard }),
        }
    } else {
        None
    };

    let log: Option<LogMessage> = match event {
        GatewayEvent::Hello { heartbeat_interval } => Some(
            LogMessage::Hello { shard, heartbeat_interval: *heartbeat_interval },
        ),
        GatewayEvent::InvalidSession { resumable } => Some(
            LogMessage::InvalidSession { shard, resumable: *resumable },
        ),
        GatewayEvent::Ready { session_id, .. } => Some(
            LogMessage::Ready { shard, session_id: session_id.clone() },
        ),
        GatewayEvent::Resumed => Some(LogMessage::Resumed { shard }),
        GatewayEvent::Connecting { url } => Some(
            LogMessage::Connecting { shard, url: url.clone() },
        ),
        GatewayEvent::Connected => Some(LogMessage::Connected { shard }),
        GatewayEvent::Disconnected { code, reason } => {
            let kept_reason: Option<String> = match (code, reason) {
                (Some(_), Some(r)) => {
                    if !r.as_str().is_empty() {
                        Some(r.clone())
                    } else {
                        None
                    }
                },
                _ => None,
            };
            Some(LogMessage::Disconnected { shard, code: *code, reason: kept_reason })
        },
        GatewayEvent::Identifying => Some(LogMessage::Identifying { shard }),
        GatewayEvent::Reconnecting => Some(LogMessage::Reconnecting { shard }),
        GatewayEvent::Resuming { sequence } => Some(
            LogMessage::Resuming { shard, sequence: *sequence },
        ),
        GatewayEvent::GuildCreate { .. } => None,
        GatewayEvent::MessageCreate { .. } => None,
        GatewayEvent::PresenceUpdate { .. } => None,
        GatewayEvent::Other => None,
    };

    let notification: Option<Notification> = match event {
        GatewayEvent::Ready { .. } => Some(Notification::Ready { color: READY_COLOR, shard }),
        GatewayEvent::Resumed => Some(Notification::Resumed { color: RESUME_COLOR, shard }),
        GatewayEvent::Connected => Some(
            Notification::Connected { color: CONNECT_COLOR, shard },
        ),
        GatewayEvent::Disconnected { code, reason } => {
            let kept: Option<String> = match reason {
                Some(r) => {
                    if !r.as_str().is_empty() {
                        Some(r.clone())
                    } else {
                        None
                    }
                },
                None => None,
            };
            Some(
                Notification::Disconnected {
                    color: DISCONNECT_COLOR,
                    shard,
                    code: *code,
                    reason: kept,
                },
            )
        },
        GatewayEvent::GuildCreate { guild_id, name } => {
            if old_value.is_none() {
                Some(
                    Notification::GuildJoin {
                        color: JOIN_COLOR,
                        guild_id: *guild_id,
                        name: name.clone(),
                    },
                )
            } else {
                None
            }
        },
        _ => None,
    };

    StepOutput { warning, log, notification }
}

/// Processes one `(shard, event)` pair from a cluster's stream: learns the
/// bot identity from the first ready event, applies the cache update when
/// the cache is enabled and the identity is known — `fate` says how the
/// environment's time bound disposed of that update; a failure or timeout
/// leaves the cache untouched here, is reported as a warning, and is
/// treated as "no prior value" — then dispatches to the structured log and
/// the curated notifications. Never fails the shard: every outcome yields
/// a normal `StepOutput`.
pub fn outgoing(
    state: &mut PipelineState,
    store: &mut Store,
    settings: &CacheSettings,
    shard: u64,
    event: &GatewayEvent,
    fate: UpdateFate,
    now_ms: u64,
) -> (out: StepOutput)
    requires
        old(store).wf(),
    ensures
        final(store).wf(),
        final(state).bot_id == spec_learned(old(state).bot_id, *event, settings.enabled),
        ({
            let attempted = spec_attempts_update(*old(state), *event, *settings);
            let old_value = spec_old_value(attempted, fate, *old(store), *event, *settings);
            &&& (!attempted || fate != UpdateFate::Completed) ==> *final(store) == *old(store)
            &&& (attempted && fate == UpdateFate::Completed) ==> match spec_cache_write(
                *event,
                *settings,
            ) {
                None => *final(store) == *old(store),
                Some(w) => {
                    &&& final(store).lookup(w.key) matches Some(e) && e.key == w.key && e.value@
                        == w.value && e.ttl_ms == w.ttl_ms && e.written_at_ms == now_ms
                    &&& forall|k2: crate::cache::CacheKey|
                        k2 != w.key ==> final(store).lookup(k2) == old(store).lookup(k2)
                },
            }
            &&& out.warning == (if attempted && fate == UpdateFate::Failed {
                Some(CacheWarning::UpdateFailed { shard })
            } else if attempted && fate == UpdateFate::TimedOut {
                Some(CacheWarning::UpdateTimedOut { shard })
            } else {
                None::<CacheWarning>
            })
            &&& out.log == spec_log(shard, *event)
            &&& out.notification == spec_notification(shard, *event, old_value)
        }),
{
    learn_identity(state, event, settings.enabled);
    let attempted = wants_cache_update(state, settings);
    let old_value: Option<String> = if attempted && matches!(fate, UpdateFate::Completed) {
        store.update(event, settings, now_ms)
    } else {
        None
    };
    dispatch(shard, event, attempted, fate, old_value)
}

} // verus!
