use gateway_fleet::config::{ActivityKind, Config, PresenceStatus};
use gateway_fleet::shards::{get_clusters, get_shards, partition_shards};

fn test_config() -> Config {
    Config {
        rust_log: "info".to_string(),
        bot_token: "token".to_string(),
        shards_start: 0,
        shards_end: 4,
        shards_total: 4,
        shards_concurrency: 1,
        shards_wait: 6000,
        clusters: 2,
        default_queue: true,
        resume: true,
        intents: 0,
        large_threshold: 250,
        status: PresenceStatus::Online,
        activity_type: ActivityKind::Playing,
        activity_name: "".to_string(),
        log_channel: 0,
        log_guild_channel: 0,
        state_enabled: true,
        state_member: true,
        state_member_ttl: 1000,
        state_message: false,
        state_message_ttl: 0,
        state_presence: false,
        state_old: true,
        redis_host: "localhost".to_string(),
        redis_port: 6379,
    }
}

#[test]
fn four_shards_two_clusters() {
    let parts = partition_shards(0, 4, 2);
    assert_eq!(parts, vec![vec![0, 1], vec![2, 3]]);
}

#[test]
fn partition_is_deterministic() {
    let a = partition_shards(0, 4, 2);
    let b = partition_shards(0, 4, 2);
    assert_eq!(a, b);
}

#[test]
fn uneven_partition_spreads_remainder_first() {
    let parts = partition_shards(0, 10, 3);
    assert_eq!(parts, vec![vec![0, 1, 2, 3], vec![4, 5, 6], vec![7, 8, 9]]);
}

#[test]
fn partition_covers_range_without_overlap() {
    let parts = partition_shards(5, 17, 4);
    let mut seen = vec![false; 12];
    for cluster in &parts {
        for &s in cluster {
            assert!((5..17).contains(&s));
            let idx = (s - 5) as usize;
            assert!(!seen[idx], "shard {} assigned twice", s);
            seen[idx] = true;
        }
    }
    assert!(seen.iter().all(|&b| b));
}

#[test]
fn more_clusters_than_shards_leaves_empty_clusters() {
    let parts = partition_shards(0, 2, 4);
    assert_eq!(parts, vec![vec![0], vec![1], vec![], vec![]]);
}

#[test]
fn empty_range_yields_empty_clusters() {
    let parts = partition_shards(3, 3, 2);
    assert_eq!(parts, vec![Vec::<u64>::new(), Vec::<u64>::new()]);
}

#[test]
fn get_shards_counts_local_range() {
    let config = test_config();
    assert_eq!(get_shards(&config), 4);
}

#[test]
fn get_clusters_uses_configured_range() {
    let config = test_config();
    let parts = get_clusters(&config);
    assert_eq!(parts, vec![vec![0, 1], vec![2, 3]]);
}
