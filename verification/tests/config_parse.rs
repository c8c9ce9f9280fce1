use gateway_fleet::config::{
    parse_activity, parse_bool, parse_status, parse_u64, ActivityKind, Config, ConfigError,
    PresenceStatus,
};

fn valid_config() -> Config {
    Config {
        rust_log: "info".to_string(),
        bot_token: "token".to_string(),
        shards_start: 0,
        shards_end: 2,
        shards_total: 4,
        shards_concurrency: 1,
        shards_wait: 6000,
        clusters: 1,
        default_queue: true,
        resume: false,
        intents: 513,
        large_threshold: 250,
        status: PresenceStatus::Idle,
        activity_type: ActivityKind::Watching,
        activity_name: "the fleet".to_string(),
        log_channel: 1,
        log_guild_channel: 2,
        state_enabled: true,
        state_member: true,
        state_member_ttl: 1000,
        state_message: true,
        state_message_ttl: 2000,
        state_presence: false,
        state_old: false,
        redis_host: "localhost".to_string(),
        redis_port: 6379,
    }
}

#[test]
fn valid_configuration_checks_out() {
    assert_eq!(valid_config().check(), Ok(()));
}

#[test]
fn reversed_range_is_rejected() {
    let mut config = valid_config();
    config.shards_start = 3;
    config.shards_end = 1;
    assert_eq!(config.check(), Err(ConfigError::RangeReversed));
}

#[test]
fn range_past_total_is_rejected() {
    let mut config = valid_config();
    config.shards_end = 9;
    assert_eq!(config.check(), Err(ConfigError::RangeExceedsTotal));
}

#[test]
fn zero_total_shards_is_rejected() {
    let mut config = valid_config();
    config.shards_start = 0;
    config.shards_end = 0;
    config.shards_total = 0;
    assert_eq!(config.check(), Err(ConfigError::NoShards));
}

#[test]
fn zero_clusters_is_rejected() {
    let mut config = valid_config();
    config.clusters = 0;
    assert_eq!(config.check(), Err(ConfigError::NoClusters));
}

#[test]
fn zero_concurrency_is_rejected() {
    let mut config = valid_config();
    config.shards_concurrency = 0;
    assert_eq!(config.check(), Err(ConfigError::NoConcurrency));
}

#[test]
fn parse_u64_reads_decimal_values() {
    assert_eq!(parse_u64("0"), Some(0));
    assert_eq!(parse_u64("42"), Some(42));
    assert_eq!(parse_u64("006379"), Some(6379));
    assert_eq!(parse_u64("18446744073709551615"), Some(u64::MAX));
}

#[test]
fn parse_u64_rejects_malformed_values() {
    assert_eq!(parse_u64(""), None);
    assert_eq!(parse_u64("-1"), None);
    assert_eq!(parse_u64("12x"), None);
    assert_eq!(parse_u64("4 2"), None);
    assert_eq!(parse_u64("18446744073709551616"), None);
}

#[test]
fn parse_status_accepts_exactly_the_status_words() {
    assert_eq!(parse_status("online"), Some(PresenceStatus::Online));
    assert_eq!(parse_status("dnd"), Some(PresenceStatus::DoNotDisturb));
    assert_eq!(parse_status("idle"), Some(PresenceStatus::Idle));
    assert_eq!(parse_status("invisible"), Some(PresenceStatus::Invisible));
    assert_eq!(parse_status("offline"), Some(PresenceStatus::Offline));
    assert_eq!(parse_status("Online"), None);
    assert_eq!(parse_status(""), None);
}

#[test]
fn parse_activity_accepts_exactly_the_activity_words() {
    assert_eq!(parse_activity("playing"), Some(ActivityKind::Playing));
    assert_eq!(parse_activity("streaming"), Some(ActivityKind::Streaming));
    assert_eq!(parse_activity("listening"), Some(ActivityKind::Listening));
    assert_eq!(parse_activity("watching"), Some(ActivityKind::Watching));
    assert_eq!(parse_activity("custom"), Some(ActivityKind::Custom));
    assert_eq!(parse_activity("competing"), Some(ActivityKind::Competing));
    assert_eq!(parse_activity("gaming"), None);
}

#[test]
fn parse_bool_accepts_exactly_true_and_false() {
    assert_eq!(parse_bool("true"), Some(true));
    assert_eq!(parse_bool("false"), Some(false));
    assert_eq!(parse_bool("True"), None);
    assert_eq!(parse_bool("1"), None);
    assert_eq!(parse_bool(""), None);
}
