//! The state cache: a typed key-value store model with per-category enable
//! flags and TTLs, previous-value capture on writes, and the event-driven
//! `update` that derives category and key from a state-bearing event.
//!
//! The durable backing (one key per entry, atomic per key) lives outside;
//! this model carries the semantics every backing must show: what a write
//! returns, which categories are live, and when an entry is stale.

use crate::config::Config;
use crate::events::GatewayEvent;
use vstd::prelude::*;

verus! {

/// Durable-store key for the process start timestamp (informational).
pub const STARTED_KEY: &'static str = "gateway_started";

/// Durable-store key for the configured total shard count (health checks).
pub const SHARDS_KEY: &'static str = "gateway_shards";

/// Durable-store key for the persisted shard-to-session mapping.
pub const SESSIONS_KEY: &'static str = "gateway_sessions";

/// The cache categories; each has its own enable flag and TTL policy.
#[derive(Clone, Copy, Debug, PartialEq, Eq, Structural)]
pub enum CacheCategory {
    /// Guild membership of the fleet's identity.
    Member,
    /// Messages.
    Message,
    /// Member presences.
    Presence,
}

/// A cache entry's identity: its category and the entity id within it.
#[derive(Clone, Copy, Debug, PartialEq, Eq, Structural)]
pub struct CacheKey {
    pub category: CacheCategory,
    pub id: u64,
}

/// The cache's per-category switches and TTLs, drawn from the startup
/// configuration.
#[derive(Clone, Copy, Debug, PartialEq, Eq, Structural)]
pub struct CacheSettings {
    /// Master switch: when off the pipeline never consults the cache.
    pub enabled: bool,
    pub member: bool,
    pub member_ttl_ms: u64,
    pub message: bool,
    pub message_ttl_ms: u64,
    pub presence: bool,
    /// When off, writes never read the prior value and report it absent.
    pub capture_old: bool,
}

impl CacheSettings {
    /// The cache switches exactly as the configuration sets them.
    pub fn from_config(config: &Config) -> (r: Self)
        ensures
            r == (CacheSettings {
                enabled: config.state_enabled,
                member: config.state_member,
                member_ttl_ms: config.state_member_ttl,
                message: config.state_message,
                message_ttl_ms: config.state_message_ttl,
                presence: config.state_presence,
                capture_old: config.state_old,
            }),
    {
        CacheSettings {
            enabled: config.state_enabled,
            member: config.state_member,
            member_ttl_ms: config.state_member_ttl,
            message: config.state_message,
            message_ttl_ms: config.state_message_ttl,
            presence: config.state_presence,
            capture_old: config.state_old,
        }
    }
}

/// One stored entry: the serialized entity, its TTL, and when it was last
/// written (every write refreshes it: sliding expiration).
pub struct CacheEntry {
    pub key: CacheKey,
    pub value: String,
    pub ttl_ms: u64,
    pub written_at_ms: u64,
}

/// No two entries share a key.
pub open spec fn unique_keys(s: Seq<CacheEntry>) -> bool {
    forall|i: int, j: int|
        0 <= i < s.len() && 0 <= j < s.len() && i != j ==> (#[trigger] s[i]).key != (
        #[trigger] s[j]).key
}

/// Whether some entry of `s` has key `k`.
pub open spec fn seq_has_key(s: Seq<CacheEntry>, k: CacheKey) -> bool {
    exists|i: int| 0 <= i < s.len() && (#[trigger] s[i]).key == k
}

/// The index of the entry with key `k` (meaningful under `unique_keys`
/// when `seq_has_key` holds).
pub open spec fn seq_idx_of(s: Seq<CacheEntry>, k: CacheKey) -> int {
    choose|i: int| 0 <= i < s.len() && (#[trigger] s[i]).key == k
}

/// The entry of `s` with key `k`, if any.
pub open spec fn seq_lookup(s: Seq<CacheEntry>, k: CacheKey) -> Option<CacheEntry> {
    if seq_has_key(s, k) {
        Some(s[seq_idx_of(s, k)])
    } else {
        None
    }
}

/// Under unique keys, the entry found at index `i` is the lookup result.
pub proof fn lemma_lookup_at(s: Seq<CacheEntry>, k: CacheKey, i: int)
    requires
        unique_keys(s),
        0 <= i < s.len(),
        s[i].key == k,
    ensures
        seq_has_key(s, k),
        seq_idx_of(s, k) == i,
        seq_lookup(s, k) == Some(s[i]),
{
    assert(seq_has_key(s, k));
    let j = seq_idx_of(s, k);
    assert(0 <= j < s.len() && s[j].key == k);
}

/// An entry is stale at `now_ms` when it has a TTL and that much time has
/// passed since it was last written.
pub open spec fn is_expired(e: CacheEntry, now_ms: u64) -> bool {
    e.ttl_ms > 0 && now_ms >= e.written_at_ms + e.ttl_ms
}

/// The in-memory model of the durable state cache.
pub struct Store {
    entries: Vec<CacheEntry>,
}

impl Store {
    /// The stored entries.
    pub closed spec fn entries(self) -> Seq<CacheEntry> {
        self.entries@
    }

    /// A well-formed store keys each entry uniquely; every operation
    /// preserves this.
    pub open spec fn wf(self) -> bool {
        unique_keys(self.entries())
    }

    /// Whether the store holds an entry for `k`.
    pub open spec fn has_key(self, k: CacheKey) -> bool {
        seq_has_key(self.entries(), k)
    }

    /// The entry stored under `k`, if any.
    pub open spec fn lookup(self, k: CacheKey) -> Option<CacheEntry> {
        seq_lookup(self.entries(), k)
    }

    /// An empty store.
    pub fn new() -> (r: Self)
        ensures
            r.wf(),
            forall|k: CacheKey| !r.has_key(k),
            r.entries().len() == 0,
    {
        Store { entries: Vec::new() }
    }

    /// How many entries the store holds.
    pub fn len(&self) -> (r: usize)
        ensures
            r == self.entries().len(),
    {
        self.entries.len()
    }

    /// Finds the index of the entry keyed `k`, or reports that none is.
    fn find(&self, k: CacheKey) -> (r: Option<usize>)
        requires
            self.wf(),
        ensures
            match r {
                Some(i) => 0 <= i < self.entries().len() && self.entries()[i as int].key == k
                    && self.lookup(k) == Some(self.entries()[i as int]),
                None => !self.has_key(k),
            },
    {
        let mut i: usize = 0;
        while i < self.entries.len()
            invariant
                self.wf(),
                0 <= i <= self.entries().len(),
                forall|j: int| 0 <= j < i ==> (#[trigger] self.entries()[j]).key != k,
            decreases self.entries().len() - i,
        {
            if self.entries[i].key == k {
                proof {
                    lemma_lookup_at(self.entries(), k, i as int);
                }
                return Some(i);
            }
            i = i + 1;
        }
        None
    }

    /// Reads the value stored under `k`. Reads never touch an entry's TTL.
    pub fn get(&self, k: CacheKey) -> (r: Option<String>)
        requires
            self.wf(),
        ensures
            r == match self.lookup(k) {
                Some(e) => Some(e.value),
                None => None::<String>,
            },
    {
        match self.find(k) {
            Some(i) => Some(self.entries[i].value.clone()),
            None => None,
        }
    }

    /// Writes `value` under `k` with the category's TTL, stamped `now_ms`
    /// — a write to an existing key refreshes its TTL clock. Returns the
    /// immediately preceding value for the key when `capture_old` is on,
    /// and always reports it absent when `capture_old` is off (then the
    /// prior value is never read at all).
    pub fn set(
        &mut self,
        k: CacheKey,
        value: String,
        ttl_ms: u64,
        now_ms: u64,
        capture_old: bool,
    ) -> (prev: Option<String>)
        requires
            old(self).wf(),
        ensures
            final(self).wf(),
            final(self).lookup(k) == Some(
                CacheEntry { key: k, value, ttl_ms, written_at_ms: now_ms },
            ),
            forall|k2: CacheKey| k2 != k ==> final(self).lookup(k2) == old(self).lookup(k2),
            prev == if capture_old && old(self).has_key(k) {
                Some(old(self).lookup(k)->Some_0.value)
            } else {
                None::<String>
            },
    {
        let ghost old_entries = self.entries();
        let new_entry_value = value;
        match self.find(k) {
            Some(i) => {
                let prev = if capture_old {
                    Some(self.entries[i].value.clone())
                } else {
                    None
                };
                self.entries[i] = CacheEntry {
                    key: k,
                    value: new_entry_value,
                    ttl_ms,
                    written_at_ms: now_ms,
                };
                proof {
                    let s = self.entries();
                    assert forall|a: int, b: int|
                        0 <= a < s.len() && 0 <= b < s.len() && a != b implies (
                    #[trigger] s[a]).key != (#[trigger] s[b]).key by {
                        assert(old_entries[a].key != old_entries[b].key);
                    }
                    lemma_lookup_at(s, k, i as int);
                    assert forall|k2: CacheKey| k2 != k implies seq_lookup(s, k2) == seq_lookup(
                        old_entries,
                        k2,
                    ) by {
                        if seq_has_key(old_entries, k2) {
                            let j = seq_idx_of(old_entries, k2);
                            assert(0 <= j < old_entries.len() && old_entries[j].key == k2);
                            assert(j != i as int);
                            lemma_lookup_at(s, k2, j);
                            lemma_lookup_at(old_entries, k2, j);
                        } else {
                            if seq_has_key(s, k2) {
                                let j = seq_idx_of(s, k2);
                                assert(0 <= j < s.len() && s[j].key == k2);
                                assert(j != i as int);
                                assert(old_entries[j].key == k2);
                            }
                        }
                    }
                }
                prev
            },
            None => {
                self.entries.push(
                    CacheEntry { key: k, value: new_entry_value, ttl_ms, written_at_ms: now_ms },
                );
                proof {
                    let s = self.entries();
                    let n = old_entries.len() as int;
                    assert forall|a: int, b: int|
                        0 <= a < s.len() && 0 <= b < s.len() && a != b implies (
                    #[trigger] s[a]).key != (#[trigger] s[b]).key by {
                        if a < n && b < n {
                            assert(old_entries[a].key != old_entries[b].key);
                        } else if a == n {
                            assert(old_entries[b].key != k);
                        } else {
                            assert(old_entries[a].key != k);
                        }
                    }
                    lemma_lookup_at(s, k, n);
                    assert forall|k2: CacheKey| k2 != k implies seq_lookup(s, k2) == seq_lookup(
                        old_entries,
                        k2,
                    ) by {
                        if seq_has_key(old_entries, k2) {
                            let j = seq_idx_of(old_entries, k2);
                            assert(0 <= j < old_entries.len() && old_entries[j].key == k2);
                            lemma_lookup_at(s, k2, j);
                            lemma_lookup_at(old_entries, k2, j);
                        } else {
                            if seq_has_key(s, k2) {
                                let j = seq_idx_of(s, k2);
                                assert(0 <= j < s.len() && s[j].key == k2);
                                assert(j != n);
                                assert(old_entries[j].key == k2);
                            }
                        }
                    }
                }
                None
            },
        }
    }

    /// Drops every entry that is stale at `now_ms`; live entries are kept
    /// untouched. The cleanup pass is a best-effort complement to the
    /// backing's own TTL expiry.
    pub fn remove_expired(&mut self, now_ms: u64)
        requires
            old(self).wf(),
        ensures
            final(self).wf(),
            forall|k: CacheKey|
                #[trigger] final(self).lookup(k) == match old(self).lookup(k) {
                    Some(e) => if is_expired(e, now_ms) {
                        None
                    } else {
                        Some(e)
                    },
                    None => None::<CacheEntry>,
                },
    {
        let ghost old_entries = self.entries();
        let mut kept: Vec<CacheEntry> = Vec::new();
        let mut i: usize = 0;
        while i < self.entries.len()
            invariant
                self.wf(),
                old_entries == self.entries(),
                0 <= i <= old_entries.len(),
                unique_keys(kept@),
                forall|j: int|
                    0 <= j < kept@.len() ==> exists|i0: int|
                        0 <= i0 < i && old_entries[i0] == #[trigger] kept@[j],
                forall|j: int| 0 <= j < kept@.len() ==> !is_expired(#[trigger] kept@[j], now_ms),
                forall|i0: int|
                    0 <= i0 < i && !is_expired(#[trigger] old_entries[i0], now_ms) ==> exists|
                        j: int,
                    | 0 <= j < kept@.len() && kept@[j] == old_entries[i0],
            decreases old_entries.len() - i,
        {
            let e = &self.entries[i];
            let keep = if e.ttl_ms == 0 {
                true
            } else {
                !(now_ms >= e.written_at_ms && now_ms - e.written_at_ms >= e.ttl_ms)
            };
            proof {
                assert(keep == !is_expired(old_entries[i as int], now_ms));
            }
            if keep {
                let ghost prev_kept = kept@;
                kept.push(
                    CacheEntry {
                        key: e.key,
                        value: e.value.clone(),
                        ttl_ms: e.ttl_ms,
                        written_at_ms: e.written_at_ms,
                    },
                );
                proof {
                    assert(kept@.last() == old_entries[i as int]);
                    assert forall|a: int, b: int|
                        0 <= a < kept@.len() && 0 <= b < kept@.len() && a != b implies (
                    #[trigger] kept@[a]).key != (#[trigger] kept@[b]).key by {
                        if a < prev_kept.len() && b < prev_kept.len() {
                            assert(prev_kept[a].key != prev_kept[b].key);
                        } else if b == prev_kept.len() {
                            let i0 = choose|i0: int|
                                0 <= i0 < i && old_entries[i0] == #[trigger] prev_kept[a];
                            assert(old_entries[i0].key != old_entries[i as int].key);
                        } else {
                            let i0 = choose|i0: int|
                                0 <= i0 < i && old_entries[i0] == #[trigger] prev_kept[b];
                            assert(old_entries[i0].key != old_entries[i as int].key);
                        }
                    }
                    assert forall|i0: int|
                        0 <= i0 < i + 1 && !is_expired(
                            #[trigger] old_entries[i0],
                            now_ms,
                        ) implies exists|j: int| 0 <= j < kept@.len() && kept@[j]
                        == old_entries[i0] by {
                        if i0 == i {
                            assert(kept@[kept@.len() - 1] == old_entries[i0]);
                        } else {
                            let j = choose|j: int|
                                0 <= j < prev_kept.len() && prev_kept[j] == old_entries[i0];
                            assert(kept@[j] == old_entries[i0]);
                        }
                    }
                }
            }
            i = i + 1;
        }
        self.entries = kept;
        proof {
            let s = self.entries();
            assert forall|k: CacheKey| #[trigger]
                seq_lookup(s, k) == match seq_lookup(old_entries, k) {
                    Some(e) => if is_expired(e, now_ms) {
                        None
                    } else {
                        Some(e)
                    },
                    None => None::<CacheEntry>,
                } by {
                if seq_has_key(old_entries, k) {
                    let i0 = seq_idx_of(old_entries, k);
                    assert(0 <= i0 < old_entries.len() && old_entries[i0].key == k);
                    if is_expired(old_entries[i0], now_ms) {
                        if seq_has_key(s, k) {
                            let j = seq_idx_of(s, k);
                            assert(0 <= j < s.len() && s[j].key == k);
                            let j0 = choose|j0: int|
                                0 <= j0 < old_entries.len() && old_entries[j0] == s[j];
                            assert(j0 == i0);
                            assert(!is_expired(s[j], now_ms));
                        }
                    } else {
                        let j = choose|j: int| 0 <= j < s.len() && s[j] == old_entries[i0];
                        lemma_lookup_at(s, k, j);
                        lemma_lookup_at(old_entries, k, i0);
                    }
                } else {
                    if seq_has_key(s, k) {
                        let j = seq_idx_of(s, k);
                        assert(0 <= j < s.len() && s[j].key == k);
                        let j0 = choose|j0: int|
                            0 <= j0 < old_entries.len() && old_entries[j0] == s[j];
                        assert(old_entries[j0].key == k);
                    }
                }
            }
        }
    }
}

/// What a state-bearing event asks the cache to write: its category's key,
/// the serialized entity, and the category's TTL.
pub struct CacheWrite {
    pub key: CacheKey,
    pub value: Seq<char>,
    pub ttl_ms: u64,
}

/// The write an event implies under the given settings: state-bearing
/// events of an enabled category write their entity under its category
/// key; every other event — and every event of a disabled category — asks
/// for nothing.
pub open spec fn spec_cache_write(e: GatewayEvent, s: CacheSettings) -> Option<CacheWrite> {
    match e {
        GatewayEvent::GuildCreate { guild_id, name } => if s.member {
            Some(
                CacheWrite {
                    key: CacheKey { category: CacheCategory::Member, id: guild_id },
                    value: name@,
                    ttl_ms: s.member_ttl_ms,
                },
            )
        } else {
            None
        },
        GatewayEvent::MessageCreate { message_id, content } => if s.message {
            Some(
                CacheWrite {
                    key: CacheKey { category: CacheCategory::Message, id: message_id },
                    value: content@,
                    ttl_ms: s.message_ttl_ms,
                },
            )
        } else {
            None
        },
        GatewayEvent::PresenceUpdate { user_id, status } => if s.presence {
            Some(
                CacheWrite {
                    key: CacheKey { category: CacheCategory::Presence, id: user_id },
                    value: status@,
                    ttl_ms: 0,
                },
            )
        } else {
            None
        },
        _ => None,
    }
}

/// The write an event implies, as executable data: the key, the value to
/// store, and the TTL — exactly what `spec_cache_write` says, for callers
/// that drive an external backing instead of the in-memory model.
pub fn cache_write_plan(event: &GatewayEvent, settings: &CacheSettings) -> (r: Option<
    (CacheKey, String, u64),
>)
    ensures
        match spec_cache_write(*event, *settings) {
            None => r is None,
            Some(w) => r matches Some(t) && t.0 == w.key && t.1@ == w.value && t.2 == w.ttl_ms,
        },
{
    match event {
        GatewayEvent::GuildCreate { guild_id, name } => if settings.member {
            Some(
                (
                    CacheKey { category: CacheCategory::Member, id: *guild_id },
                    name.clone(),
                    settings.member_ttl_ms,
                ),
            )
        } else {
            None
        },
        GatewayEvent::MessageCreate { message_id, content } => if settings.message {
            Some(
                (
                    CacheKey { category: CacheCategory::Message, id: *message_id },
                    content.clone(),
                    settings.message_ttl_ms,
                ),
            )
        } else {
            None
        },
        GatewayEvent::PresenceUpdate { user_id, status } => if settings.presence {
            Some(
                (
                    CacheKey { category: CacheCategory::Presence, id: *user_id },
                    status.clone(),
                    0,
                ),
            )
        } else {
            None
        },
        _ => None,
    }
}

impl Store {
    /// Applies one event to the cache: derives the category and key from
    /// its payload, applies the category's enable flag and TTL, and
    /// delegates to `set`. Events of a disabled category, and events that
    /// bear no state, are no-ops that report no prior value.
    pub fn update(
        &mut self,
        event: &GatewayEvent,
        settings: &CacheSettings,
        now_ms: u64,
    ) -> (prev: Option<String>)
        requires
            old(self).wf(),
        ensures
            final(self).wf(),
            match spec_cache_write(*event, *settings) {
                None => *final(self) == *old(self) && prev is None,
                Some(w) => {
                    &&& final(self).lookup(w.key) matches Some(e) && e.key == w.key && e.value@
                        == w.value && e.ttl_ms == w.ttl_ms && e.written_at_ms == now_ms
                    &&& forall|k2: CacheKey|
                        k2 != w.key ==> final(self).lookup(k2) == old(self).lookup(k2)
                    &&& prev == if settings.capture_old && old(self).has_key(w.key) {
                        Some(old(self).lookup(w.key)->Some_0.value)
                    } else {
                        None::<String>
                    }
                },
            },
    {
        match event {
            GatewayEvent::GuildCreate { guild_id, name } => {
                if settings.member {
                    self.set(
                        CacheKey { category: CacheCategory::Member, id: *guild_id },
                        name.clone(),
                        settings.member_ttl_ms,
                        now_ms,
                        settings.capture_old,
                    )
                } else {
                    None
                }
            },
            GatewayEvent::MessageCreate { message_id, content } => {
                if settings.message {
                    self.set(
                        CacheKey { category: CacheCategory::Message, id: *message_id },
                        content.clone(),
                        settings.message_ttl_ms,
                        now_ms,
                        settings.capture_old,
                    )
                } else {
                    None
                }
            },
            GatewayEvent::PresenceUpdate { user_id, status } => {
                if settings.presence {
                    self.set(
                        CacheKey { category: CacheCategory::Presence, id: *user_id },
                        status.clone(),
                        0,
                        now_ms,
                        settings.capture_old,
                    )
                } else {
                    None
                }
            },
            _ => None,
        }
    }
}

} // verus!
