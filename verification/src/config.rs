//! Startup configuration: the typed parameter set, its validity rules,
//! and parsers for the textual values the environment supplies.

use vstd::prelude::*;

verus! {

/// Presence status the fleet advertises on identify.
#[derive(Clone, Copy, Debug, PartialEq, Eq, Structural)]
pub enum PresenceStatus {
    Online,
    DoNotDisturb,
    Idle,
    Invisible,
    Offline,
}

/// Kind of activity the fleet advertises on identify.
#[derive(Clone, Copy, Debug, PartialEq, Eq, Structural)]
pub enum ActivityKind {
    Playing,
    Streaming,
    Listening,
    Watching,
    Custom,
    Competing,
}

/// The validated startup parameters, constructed once at boot and passed
/// to every component that needs them.
#[derive(Debug)]
pub struct Config {
    pub rust_log: String,
    pub bot_token: String,
    pub shards_start: u64,
    pub shards_end: u64,
    pub shards_total: u64,
    pub shards_concurrency: u64,
    pub shards_wait: u64,
    pub clusters: u64,
    pub default_queue: bool,
    pub resume: bool,
    pub intents: u64,
    pub large_threshold: u64,
    pub status: PresenceStatus,
    pub activity_type: ActivityKind,
    pub activity_name: String,
    pub log_channel: u64,
    pub log_guild_channel: u64,
    pub state_enabled: bool,
    pub state_member: bool,
    pub state_member_ttl: u64,
    pub state_message: bool,
    pub state_message_ttl: u64,
    pub state_presence: bool,
    pub state_old: bool,
    pub redis_host: String,
    pub redis_port: u64,
}

/// Why a configuration is rejected at startup.
#[derive(Clone, Copy, Debug, PartialEq, Eq, Structural)]
pub enum ConfigError {
    /// The local shard range is reversed: `shards_start > shards_end`.
    RangeReversed,
    /// The local shard range reaches past the fleet total:
    /// `shards_end > shards_total`.
    RangeExceedsTotal,
    /// The fleet has no shards at all: `shards_total == 0`.
    NoShards,
    /// No clusters were requested: `clusters == 0`.
    NoClusters,
    /// The admission budget is empty: `shards_concurrency == 0`.
    NoConcurrency,
}

impl Config {
    /// The shard ids this process owns: the half-open range
    /// `[shards_start, shards_end)` inside the fleet-wide `[0, shards_total)`.
    pub open spec fn valid(self) -> bool {
        &&& self.shards_start <= self.shards_end
        &&& self.shards_end <= self.shards_total
        &&& self.shards_total >= 1
        &&& self.clusters >= 1
        &&& self.shards_concurrency >= 1
    }

    /// Checks the numeric parameters, reporting the first rule violated
    /// (in the order of the `ConfigError` variants); returns `Ok` exactly
    /// on valid configurations.
    pub fn check(&self) -> (r: Result<(), ConfigError>)
        ensures
            r is Ok <==> self.valid(),
            self.shards_start > self.shards_end ==> r == Result::<(), ConfigError>::Err(
                ConfigError::RangeReversed,
            ),
            self.shards_start <= self.shards_end && self.shards_end > self.shards_total ==> r
                == Result::<(), ConfigError>::Err(ConfigError::RangeExceedsTotal),
            self.shards_start <= self.shards_end && self.shards_end <= self.shards_total
                && self.shards_total == 0 ==> r == Result::<(), ConfigError>::Err(
                ConfigError::NoShards,
            ),
            self.shards_start <= self.shards_end && self.shards_end <= self.shards_total
                && self.shards_total >= 1 && self.clusters == 0 ==> r == Result::<(
                ),
                ConfigError,
            >::Err(ConfigError::NoClusters),
            self.shards_start <= self.shards_end && self.shards_end <= self.shards_total
                && self.shards_total >= 1 && self.clusters >= 1 && self.shards_concurrency == 0
                ==> r == Result::<(), ConfigError>::Err(ConfigError::NoConcurrency),
    {
        if self.shards_start > self.shards_end {
            Err(ConfigError::RangeReversed)
        } else if self.shards_end > self.shards_total {
            Err(ConfigError::RangeExceedsTotal)
        } else if self.shards_total == 0 {
            Err(ConfigError::NoShards)
        } else if self.clusters == 0 {
            Err(ConfigError::NoClusters)
        } else if self.shards_concurrency == 0 {
            Err(ConfigError::NoConcurrency)
        } else {
            Ok(())
        }
    }
}

/// A decimal digit.
pub open spec fn is_digit(c: char) -> bool {
    '0' <= c && c <= '9'
}

/// The numeric value of a digit character.
pub open spec fn digit_val(c: char) -> int {
    c as int - '0' as int
}

/// Every character of `s` is a decimal digit.
pub open spec fn all_digits(s: Seq<char>) -> bool {
    forall|i: int| 0 <= i < s.len() ==> is_digit(#[trigger] s[i])
}

/// The value of `s` read as a decimal numeral (most significant first).
pub open spec fn dec_val(s: Seq<char>) -> int
    decreases s.len(),
{
    if s.len() == 0 {
        0
    } else {
        dec_val(s.drop_last()) * 10 + digit_val(s.last())
    }
}

/// A digit string's value is never negative.
pub proof fn lemma_dec_val_nonneg(s: Seq<char>)
    requires
        all_digits(s),
    ensures
        dec_val(s) >= 0,
    decreases s.len(),
{
    if s.len() > 0 {
        assert(all_digits(s.drop_last()));
        lemma_dec_val_nonneg(s.drop_last());
    }
}

/// A digit string is worth at least any of its prefixes.
pub proof fn lemma_dec_val_prefix(s: Seq<char>, i: int)
    requires
        all_digits(s),
        0 <= i <= s.len(),
    ensures
        dec_val(s.take(i)) <= dec_val(s),
    decreases s.len() - i,
{
    if i == s.len() {
        assert(s.take(i) =~= s);
    } else {
        lemma_dec_val_prefix(s, i + 1);
        assert(s.take(i + 1).drop_last() =~= s.take(i));
        assert(s.take(i + 1).last() == s[i]);
        assert(all_digits(s.take(i)));
        lemma_dec_val_nonneg(s.take(i));
    }
}

/// Reads an environment value as an unsigned decimal number: defined — and
/// returned — exactly for nonempty all-digit strings whose value fits.
pub fn parse_u64(s: &str) -> (r: Option<u64>)
    ensures
        r is Some <==> (s@.len() > 0 && all_digits(s@) && dec_val(s@) <= u64::MAX),
        r matches Some(v) ==> v as int == dec_val(s@),
{
    let n = s.unicode_len();
    if n == 0 {
        return None;
    }
    let mut val: u64 = 0;
    let mut i: usize = 0;
    proof {
        assert(s@.take(0) =~= Seq::<char>::empty());
    }
    while i < n
        invariant
            n == s@.len(),
            0 <= i <= n,
            forall|j: int| 0 <= j < i ==> is_digit(#[trigger] s@[j]),
            val as int == dec_val(s@.take(i as int)),
        decreases n - i,
    {
        let c = s.get_char(i);
        let cv = c as u32;
        if cv < 48 || cv > 57 {
            assert(!is_digit(s@[i as int]));
            return None;
        }
        let d: u64 = (cv - 48) as u64;
        proof {
            assert(s@.take(i + 1).drop_last() =~= s@.take(i as int));
            assert(s@.take(i + 1).last() == s@[i as int]);
            assert(d as int == digit_val(s@[i as int]));
        }
        let scaled = match val.checked_mul(10) {
            Some(v) => v,
            None => {
                proof {
                    if all_digits(s@) {
                        lemma_dec_val_prefix(s@, i + 1);
                    }
                }
                return None;
            },
        };
        let next = match scaled.checked_add(d) {
            Some(v) => v,
            None => {
                proof {
                    if all_digits(s@) {
                        lemma_dec_val_prefix(s@, i + 1);
                    }
                }
                return None;
            },
        };
        val = next;
        i = i + 1;
    }
    proof {
        assert(s@.take(n as int) =~= s@);
    }
    Some(val)
}

/// Reads an environment value as a presence status: exactly the five
/// status words.
pub fn parse_status(s: &str) -> (r: Option<PresenceStatus>)
    ensures
        r == if s@ == "online"@ {
            Some(PresenceStatus::Online)
        } else if s@ == "dnd"@ {
            Some(PresenceStatus::DoNotDisturb)
        } else if s@ == "idle"@ {
            Some(PresenceStatus::Idle)
        } else if s@ == "invisible"@ {
            Some(PresenceStatus::Invisible)
        } else if s@ == "offline"@ {
            Some(PresenceStatus::Offline)
        } else {
            None::<PresenceStatus>
        },
{
    let owned = s.to_owned();
    if owned.eq(&String::from_str("online")) {
        Some(PresenceStatus::Online)
    } else if owned.eq(&String::from_str("dnd")) {
        Some(PresenceStatus::DoNotDisturb)
    } else if owned.eq(&String::from_str("idle")) {
        Some(PresenceStatus::Idle)
    } else if owned.eq(&String::from_str("invisible")) {
        Some(PresenceStatus::Invisible)
    } else if owned.eq(&String::from_str("offline")) {
        Some(PresenceStatus::Offline)
    } else {
        None
    }
}

/// Reads an environment value as an activity kind: exactly the six
/// activity words.
pub fn parse_activity(s: &str) -> (r: Option<ActivityKind>)
    ensures
        r == if s@ == "playing"@ {
            Some(ActivityKind::Playing)
        } else if s@ == "streaming"@ {
            Some(ActivityKind::Streaming)
        } else if s@ == "listening"@ {
            Some(ActivityKind::Listening)
        } else if s@ == "watching"@ {
            Some(ActivityKind::Watching)
        } else if s@ == "custom"@ {
            Some(ActivityKind::Custom)
        } else if s@ == "competing"@ {
            Some(ActivityKind::Competing)
        } else {
            None::<ActivityKind>
        },
{
    let owned = s.to_owned();
    if owned.eq(&String::from_str("playing")) {
        Some(ActivityKind::Playing)
    } else if owned.eq(&String::from_str("streaming")) {
        Some(ActivityKind::Streaming)
    } else if owned.eq(&String::from_str("listening")) {
        Some(ActivityKind::Listening)
    } else if owned.eq(&String::from_str("watching")) {
        Some(ActivityKind::Watching)
    } else if owned.eq(&String::from_str("custom")) {
        Some(ActivityKind::Custom)
    } else if owned.eq(&String::from_str("competing")) {
        Some(ActivityKind::Competing)
    } else {
        None
    }
}

/// Reads an environment value as a boolean: exactly the strings `true`
/// and `false`.
pub fn parse_bool(s: &str) -> (r: Option<bool>)
    ensures
        r == if s@ == "true"@ {
            Some(true)
        } else if s@ == "false"@ {
            Some(false)
        } else {
            None::<bool>
        },
{
    let owned = s.to_owned();
    if owned.eq(&String::from_str("true")) {
        Some(true)
    } else if owned.eq(&String::from_str("false")) {
        Some(false)
    } else {
        None
    }
}

} // verus!
