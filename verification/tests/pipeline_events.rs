use gateway_fleet::cache::{CacheCategory, CacheKey, CacheSettings, Store};
use gateway_fleet::events::GatewayEvent;
use gateway_fleet::pipeline::{
    outgoing, CacheWarning, LogMessage, Notification, PipelineState, UpdateFate, CONNECT_COLOR,
    DISCONNECT_COLOR, JOIN_COLOR, READY_COLOR, RESUME_COLOR,
};

fn member_settings() -> CacheSettings {
    CacheSettings {
        enabled: true,
        member: true,
        member_ttl_ms: 0,
        message: false,
        message_ttl_ms: 0,
        presence: false,
        capture_old: true,
    }
}

#[test]
fn first_seen_guild_notifies_then_repeat_is_suppressed() {
    let mut state = PipelineState { bot_id: None };
    let mut store = Store::new();
    let settings = member_settings();

    // the pipeline first learns the fleet identity from a ready event
    let ready = GatewayEvent::Ready { session_id: "s1".to_string(), bot_id: 999 };
    outgoing(&mut state, &mut store, &settings, 3, &ready, UpdateFate::Completed, 0);
    assert_eq!(state.bot_id, Some(999));

    // guild 42 was never seen: the cache reports absent, a join notification fires
    let create = GatewayEvent::GuildCreate { guild_id: 42, name: "42".to_string() };
    let out = outgoing(&mut state, &mut store, &settings, 3, &create, UpdateFate::Completed, 1);
    assert_eq!(
        out.notification,
        Some(Notification::GuildJoin { color: JOIN_COLOR, guild_id: 42, name: "42".to_string() })
    );

    // the same guild re-arrives (reconnect): the prior value suppresses the join
    let create_again = GatewayEvent::GuildCreate { guild_id: 42, name: "42".to_string() };
    let out2 =
        outgoing(&mut state, &mut store, &settings, 3, &create_again, UpdateFate::Completed, 2);
    assert_eq!(out2.notification, None);
}

#[test]
fn timeout_logs_warning_and_continues() {
    let mut state = PipelineState { bot_id: Some(999) };
    let mut store = Store::new();
    let settings = member_settings();

    let create = GatewayEvent::GuildCreate { guild_id: 7, name: "g".to_string() };
    let out = outgoing(&mut state, &mut store, &settings, 2, &create, UpdateFate::TimedOut, 0);
    assert_eq!(out.warning, Some(CacheWarning::UpdateTimedOut { shard: 2 }));
    // nothing was written, and the event is treated as "no prior value"
    assert_eq!(store.len(), 0);
    assert!(out.notification.is_some());

    // the shard is not marked failed: the next event processes normally
    let next = GatewayEvent::Connected;
    let out2 = outgoing(&mut state, &mut store, &settings, 2, &next, UpdateFate::Completed, 1);
    assert_eq!(out2.warning, None);
    assert_eq!(out2.log, Some(LogMessage::Connected { shard: 2 }));
}

#[test]
fn failed_update_logs_warning() {
    let mut state = PipelineState { bot_id: Some(999) };
    let mut store = Store::new();
    let settings = member_settings();
    let create = GatewayEvent::GuildCreate { guild_id: 7, name: "g".to_string() };
    let out = outgoing(&mut state, &mut store, &settings, 5, &create, UpdateFate::Failed, 0);
    assert_eq!(out.warning, Some(CacheWarning::UpdateFailed { shard: 5 }));
    assert_eq!(store.len(), 0);
}

#[test]
fn cache_disabled_skips_update_and_identity() {
    let mut state = PipelineState { bot_id: None };
    let mut store = Store::new();
    let mut settings = member_settings();
    settings.enabled = false;
    let ready = GatewayEvent::Ready { session_id: "s".to_string(), bot_id: 1 };
    let out = outgoing(&mut state, &mut store, &settings, 0, &ready, UpdateFate::Completed, 0);
    assert_eq!(state.bot_id, None);
    assert_eq!(store.len(), 0);
    assert_eq!(out.warning, None);
}

#[test]
fn no_update_before_identity_is_learned() {
    let mut state = PipelineState { bot_id: None };
    let mut store = Store::new();
    let settings = member_settings();
    // a guild arrives before any ready event: the cache is not consulted
    let create = GatewayEvent::GuildCreate { guild_id: 1, name: "g".to_string() };
    let out = outgoing(&mut state, &mut store, &settings, 0, &create, UpdateFate::Completed, 0);
    assert_eq!(store.len(), 0);
    // absent prior value still yields the first-seen notification
    assert!(out.notification.is_some());
    assert_eq!(out.warning, None);
}

#[test]
fn curated_kinds_notify_with_their_colors() {
    let mut state = PipelineState { bot_id: None };
    let mut store = Store::new();
    let settings = CacheSettings { enabled: false, ..member_settings() };

    let ready = GatewayEvent::Ready { session_id: "s".to_string(), bot_id: 1 };
    let out = outgoing(&mut state, &mut store, &settings, 1, &ready, UpdateFate::Completed, 0);
    assert_eq!(out.notification, Some(Notification::Ready { color: READY_COLOR, shard: 1 }));

    let out = outgoing(
        &mut state,
        &mut store,
        &settings,
        1,
        &GatewayEvent::Resumed,
        UpdateFate::Completed,
        0,
    );
    assert_eq!(out.notification, Some(Notification::Resumed { color: RESUME_COLOR, shard: 1 }));

    let out = outgoing(
        &mut state,
        &mut store,
        &settings,
        1,
        &GatewayEvent::Connected,
        UpdateFate::Completed,
        0,
    );
    assert_eq!(out.notification, Some(Notification::Connected { color: CONNECT_COLOR, shard: 1 }));

    let out = outgoing(
        &mut state,
        &mut store,
        &settings,
        1,
        &GatewayEvent::Disconnected { code: None, reason: None },
        UpdateFate::Completed,
        0,
    );
    assert_eq!(
        out.notification,
        Some(Notification::Disconnected {
            color: DISCONNECT_COLOR,
            shard: 1,
            code: None,
            reason: None
        })
    );

    let out = outgoing(
        &mut state,
        &mut store,
        &settings,
        1,
        &GatewayEvent::Hello { heartbeat_interval: 45000 },
        UpdateFate::Completed,
        0,
    );
    assert_eq!(out.notification, None);
    assert_eq!(out.log, Some(LogMessage::Hello { shard: 1, heartbeat_interval: 45000 }));
}

#[test]
fn disconnect_notification_carries_code_and_nonempty_reason() {
    let mut state = PipelineState { bot_id: None };
    let mut store = Store::new();
    let settings = CacheSettings { enabled: false, ..member_settings() };

    let out = outgoing(
        &mut state,
        &mut store,
        &settings,
        4,
        &GatewayEvent::Disconnected { code: Some(4000), reason: Some("oops".to_string()) },
        UpdateFate::Completed,
        0,
    );
    assert_eq!(
        out.notification,
        Some(Notification::Disconnected {
            color: DISCONNECT_COLOR,
            shard: 4,
            code: Some(4000),
            reason: Some("oops".to_string())
        })
    );

    // an empty reason is omitted from the notification
    let out = outgoing(
        &mut state,
        &mut store,
        &settings,
        4,
        &GatewayEvent::Disconnected { code: Some(4001), reason: Some("".to_string()) },
        UpdateFate::Completed,
        0,
    );
    assert_eq!(
        out.notification,
        Some(Notification::Disconnected {
            color: DISCONNECT_COLOR,
            shard: 4,
            code: Some(4001),
            reason: None
        })
    );

    // a reason may be reported without a close code
    let out = outgoing(
        &mut state,
        &mut store,
        &settings,
        4,
        &GatewayEvent::Disconnected { code: None, reason: Some("peer gone".to_string()) },
        UpdateFate::Completed,
        0,
    );
    assert_eq!(
        out.notification,
        Some(Notification::Disconnected {
            color: DISCONNECT_COLOR,
            shard: 4,
            code: None,
            reason: Some("peer gone".to_string())
        })
    );
}

#[test]
fn disconnect_reason_kept_only_with_code_and_nonempty() {
    let mut state = PipelineState { bot_id: None };
    let mut store = Store::new();
    let settings = CacheSettings { enabled: false, ..member_settings() };

    let out = outgoing(
        &mut state,
        &mut store,
        &settings,
        4,
        &GatewayEvent::Disconnected { code: Some(4000), reason: Some("oops".to_string()) },
        UpdateFate::Completed,
        0,
    );
    assert_eq!(
        out.log,
        Some(LogMessage::Disconnected {
            shard: 4,
            code: Some(4000),
            reason: Some("oops".to_string())
        })
    );

    let out = outgoing(
        &mut state,
        &mut store,
        &settings,
        4,
        &GatewayEvent::Disconnected { code: Some(4000), reason: Some("".to_string()) },
        UpdateFate::Completed,
        0,
    );
    assert_eq!(out.log, Some(LogMessage::Disconnected { shard: 4, code: Some(4000), reason: None }));

    let out = outgoing(
        &mut state,
        &mut store,
        &settings,
        4,
        &GatewayEvent::Disconnected { code: None, reason: Some("ignored".to_string()) },
        UpdateFate::Completed,
        0,
    );
    assert_eq!(out.log, Some(LogMessage::Disconnected { shard: 4, code: None, reason: None }));
}

#[test]
fn unhandled_kinds_are_noops() {
    let mut state = PipelineState { bot_id: None };
    let mut store = Store::new();
    let settings = CacheSettings { enabled: false, ..member_settings() };
    let out = outgoing(
        &mut state,
        &mut store,
        &settings,
        0,
        &GatewayEvent::Other,
        UpdateFate::Completed,
        0,
    );
    assert_eq!(out.log, None);
    assert_eq!(out.notification, None);
    assert_eq!(out.warning, None);
}

#[test]
fn guild_create_writes_through_to_cache() {
    let mut state = PipelineState { bot_id: Some(1) };
    let mut store = Store::new();
    let settings = member_settings();
    let create = GatewayEvent::GuildCreate { guild_id: 42, name: "Home".to_string() };
    outgoing(&mut state, &mut store, &settings, 0, &create, UpdateFate::Completed, 0);
    assert_eq!(
        store.get(CacheKey { category: CacheCategory::Member, id: 42 }),
        Some("Home".to_string())
    );
}
