//! Session-resume persistence: the per-shard resumable session record,
//! lookup in a loaded session mapping, and capture of the resumable
//! sessions a fleet holds at tear-down.

use crate::events::GatewayEvent;
use vstd::prelude::*;

verus! {

/// A shard's resumable session: enough to continue the prior session
/// instead of a fresh identify after a restart.
#[derive(Debug, PartialEq, Eq)]
pub struct SessionInfo {
    pub session_id: String,
    pub sequence: u64,
}

impl Clone for SessionInfo {
    fn clone(&self) -> (r: Self)
        ensures
            r == *self,
    {
        SessionInfo { session_id: self.session_id.clone(), sequence: self.sequence }
    }
}

impl SessionInfo {
    /// Two records agree when both fields agree; `sid` is compared by its
    /// character sequence.
    pub open spec fn is(self, sid: Seq<char>, sequence: u64) -> bool {
        self.session_id@ == sid && self.sequence == sequence
    }
}

/// What a shard's resumable session becomes when `event` arrives on it: a
/// completed identify opens a fresh session at sequence zero, a resume in
/// progress advances the held session's sequence, an invalidation beyond
/// resumption closes the session, and every other event leaves it as it
/// was.
pub open spec fn spec_session_transition(
    current: Option<SessionInfo>,
    event: GatewayEvent,
) -> Option<SessionInfo> {
    match event {
        GatewayEvent::Ready { session_id, .. } => Some(SessionInfo { session_id, sequence: 0 }),
        GatewayEvent::Resuming { sequence } => match current {
            Some(info) => Some(SessionInfo { session_id: info.session_id, sequence }),
            None => None,
        },
        GatewayEvent::InvalidSession { resumable } => if resumable {
            current
        } else {
            None
        },
        _ => current,
    }
}

/// Applies one event to a shard's session ledger entry, exactly as
/// `spec_session_transition` describes; tear-down capture
/// (`resumable_sessions`) then reads what these transitions left.
pub fn apply_session_event(current: &Option<SessionInfo>, event: &GatewayEvent) -> (r: Option<
    SessionInfo,
>)
    ensures
        r == spec_session_transition(*current, *event),
{
    match event {
        GatewayEvent::Ready { session_id, .. } => Some(
            SessionInfo { session_id: session_id.clone(), sequence: 0 },
        ),
        GatewayEvent::Resuming { sequence } => match current {
            Some(info) => Some(
                SessionInfo { session_id: info.session_id.clone(), sequence: *sequence },
            ),
            None => None,
        },
        GatewayEvent::InvalidSession { resumable } => {
            if *resumable {
                match current {
                    Some(info) => Some(info.clone()),
                    None => None,
                }
            } else {
                None
            }
        },
        _ => match current {
            Some(info) => Some(info.clone()),
            None => None,
        },
    }
}

/// The first session recorded for `shard` in `entries`, if any.
pub open spec fn session_for(entries: Seq<(u64, SessionInfo)>, shard: u64) -> Option<SessionInfo>
    decreases entries.len(),
{
    if entries.len() == 0 {
        None
    } else if entries[0].0 == shard {
        Some(entries[0].1)
    } else {
        session_for(entries.drop_first(), shard)
    }
}

/// Whether `entries` records a session for `shard`.
pub open spec fn has_session(entries: Seq<(u64, SessionInfo)>, shard: u64) -> bool {
    session_for(entries, shard) is Some
}

/// Looks `shard` up in a loaded session mapping, returning the first
/// record found, exactly as `session_for` describes.
pub fn find_session(entries: &Vec<(u64, SessionInfo)>, shard: u64) -> (r: Option<SessionInfo>)
    ensures
        r == session_for(entries@, shard),
{
    let mut i: usize = 0;
    proof {
        assert(entries@.skip(0) =~= entries@);
    }
    while i < entries.len()
        invariant
            0 <= i <= entries@.len(),
            session_for(entries@, shard) == session_for(entries@.skip(i as int), shard),
        decreases entries@.len() - i,
    {
        proof {
            assert(entries@.skip(i as int).drop_first() =~= entries@.skip(i + 1));
        }
        if entries[i].0 == shard {
            return Some(entries[i].1.clone());
        }
        i = i + 1;
    }
    proof {
        assert(entries@.skip(entries@.len() as int) =~= Seq::<(u64, SessionInfo)>::empty());
    }
    None
}

/// The resumable entries among a fleet's final per-shard states, in order:
/// exactly the shards that still held a session, paired with it.
pub open spec fn resumable_of(state: Seq<(u64, Option<SessionInfo>)>) -> Seq<(u64, SessionInfo)>
    decreases state.len(),
{
    if state.len() == 0 {
        Seq::empty()
    } else {
        let rest = resumable_of(state.drop_last());
        match state.last().1 {
            Some(info) => rest.push((state.last().0, info)),
            None => rest,
        }
    }
}

/// Captures, from the per-shard states at tear-down, the mapping that the
/// session store is to persist: exactly the shards that held a resumable
/// session, each with its session, in shard order of the input; shards
/// without a session are omitted.
pub fn resumable_sessions(state: &Vec<(u64, Option<SessionInfo>)>) -> (r: Vec<(u64, SessionInfo)>)
    ensures
        r@ == resumable_of(state@),
{
    let mut r: Vec<(u64, SessionInfo)> = Vec::new();
    let mut i: usize = 0;
    while i < state.len()
        invariant
            0 <= i <= state@.len(),
            r@ == resumable_of(state@.take(i as int)),
        decreases state@.len() - i,
    {
        proof {
            assert(state@.take(i + 1).drop_last() =~= state@.take(i as int));
            assert(state@.take(i + 1).last() == state@[i as int]);
        }
        match &state[i].1 {
            Some(info) => {
                r.push((state[i].0, info.clone()));
            },
            None => {},
        }
        i = i + 1;
    }
    proof {
        assert(state@.take(state@.len() as int) =~= state@);
    }
    r
}

/// On shutdown the saved mapping holds an entry for a shard exactly when
/// that shard's final state held a resumable session (assuming each shard
/// appears once in the input, as a fleet's shard set guarantees).
pub proof fn lemma_saved_iff_resumable(state: Seq<(u64, Option<SessionInfo>)>, shard: u64)
    ensures
        (exists|i: int|
            0 <= i < resumable_of(state).len() && #[trigger] resumable_of(state)[i].0 == shard)
            <==> (exists|i: int|
            0 <= i < state.len() && #[trigger] state[i].0 == shard && state[i].1 is Some),
    decreases state.len(),
{
    if state.len() == 0 {
    } else {
        lemma_saved_iff_resumable(state.drop_last(), shard);
        let prev = resumable_of(state.drop_last());
        let cur = resumable_of(state);
        if exists|i: int| 0 <= i < cur.len() && #[trigger] cur[i].0 == shard {
            let i = choose|i: int| 0 <= i < cur.len() && #[trigger] cur[i].0 == shard;
            if i < prev.len() {
                assert(prev[i].0 == shard);
                let j = choose|j: int|
                    0 <= j < state.drop_last().len() && #[trigger] state.drop_last()[j].0 == shard
                        && state.drop_last()[j].1 is Some;
                assert(state[j].0 == shard && state[j].1 is Some);
            } else {
                assert(state.last().1 is Some);
                assert(state[state.len() - 1].0 == shard && state[state.len() - 1].1 is Some);
            }
        }
        if exists|i: int| 0 <= i < state.len() && #[trigger] state[i].0 == shard && state[i].1
            is Some {
            let i = choose|i: int|
                0 <= i < state.len() && #[trigger] state[i].0 == shard && state[i].1 is Some;
            if i < state.len() - 1 {
                assert(state.drop_last()[i].0 == shard && state.drop_last()[i].1 is Some);
                let j = choose|j: int| 0 <= j < prev.len() && #[trigger] prev[j].0 == shard;
                assert(cur[j].0 == shard);
            } else {
                assert(cur[cur.len() - 1].0 == shard);
            }
        }
    }
}

} // verus!
