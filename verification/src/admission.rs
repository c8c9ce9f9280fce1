//! Admission control for connection bring-up: the per-cluster concurrency
//! budget, and the batched bring-up plan that respects the budget, spaces
//! batches by the configured wait, and prefers resuming over a fresh
//! identify wherever a persisted session exists.

use crate::sessions::{has_session, session_for, SessionInfo};
use vstd::arithmetic::div_mod::{
    lemma_div_is_ordered, lemma_fundamental_div_mod, lemma_fundamental_div_mod_converse,
};
use vstd::prelude::*;

verus! {

/// A counting admission budget: at most `capacity` handshakes in flight at
/// once. This is the local backing; an externally coordinated queue offers
/// the same two operations with the same bound, enforced by the queue
/// service across processes.
pub struct AdmissionBudget {
    capacity: u64,
    in_flight: u64,
}

impl AdmissionBudget {
    /// The budget's fixed bound.
    pub closed spec fn capacity(self) -> u64 {
        self.capacity
    }

    /// How many handshakes currently hold a slot.
    pub closed spec fn in_flight(self) -> u64 {
        self.in_flight
    }

    /// Well-formed budgets never have more slots out than the bound; every
    /// operation below preserves this.
    pub open spec fn wf(self) -> bool {
        &&& self.capacity() >= 1
        &&& self.in_flight() <= self.capacity()
    }

    /// A fresh budget with `capacity` slots, none taken.
    pub fn new(capacity: u64) -> (r: Self)
        requires
            capacity >= 1,
        ensures
            r.wf(),
            r.capacity() == capacity,
            r.in_flight() == 0,
    {
        AdmissionBudget { capacity, in_flight: 0 }
    }

    /// Takes a slot when one is free; grants exactly when the count was
    /// below the bound, so the bound is never exceeded, even transiently.
    pub fn try_acquire(&mut self) -> (granted: bool)
        requires
            old(self).wf(),
        ensures
            final(self).wf(),
            final(self).capacity() == old(self).capacity(),
            granted == (old(self).in_flight() < old(self).capacity()),
            granted ==> final(self).in_flight() == old(self).in_flight() + 1,
            !granted ==> final(self).in_flight() == old(self).in_flight(),
    {
        if self.in_flight < self.capacity {
            self.in_flight = self.in_flight + 1;
            true
        } else {
            false
        }
    }

    /// How many slots are currently out, for callers that guard a release.
    pub fn slots_held(&self) -> (r: u64)
        ensures
            r == self.in_flight(),
    {
        self.in_flight
    }

    /// Returns a slot once a handshake completes (a rejected resume
    /// completes the handshake too, so it also releases its slot).
    pub fn release(&mut self)
        requires
            old(self).wf(),
            old(self).in_flight() >= 1,
        ensures
            final(self).wf(),
            final(self).capacity() == old(self).capacity(),
            final(self).in_flight() == old(self).in_flight() - 1,
    {
        self.in_flight = self.in_flight - 1;
    }
}

/// One step of an admission history: a slot granted to a handshake, or a
/// handshake completing and giving its slot back.
#[derive(Clone, Copy, Debug, PartialEq, Eq, Structural)]
pub enum AdmissionEvent {
    Granted,
    Completed,
}

/// The in-flight handshake count after a history of grants and
/// completions under a budget of `capacity`, when — as `try_acquire`
/// ensures of the local budget, and as the external queue service
/// guarantees of its grants — a slot is granted only while the count is
/// below the bound.
pub open spec fn in_flight_after(events: Seq<AdmissionEvent>, capacity: u64) -> int
    decreases events.len(),
{
    if events.len() == 0 {
        0
    } else {
        let before = in_flight_after(events.drop_last(), capacity);
        match events.last() {
            AdmissionEvent::Granted => if before < capacity {
                before + 1
            } else {
                before
            },
            AdmissionEvent::Completed => if before > 0 {
                before - 1
            } else {
                before
            },
        }
    }
}

/// The instantaneous admission bound: under any interleaving of grants
/// and completions — handshakes of different batches overlapping included
/// — the number of in-flight handshakes never exceeds the budget, not
/// even transiently, because every grant is given only below the bound.
pub proof fn lemma_in_flight_never_exceeds_budget(events: Seq<AdmissionEvent>, capacity: u64)
    ensures
        0 <= in_flight_after(events, capacity) <= capacity,
    decreases events.len(),
{
    if events.len() > 0 {
        lemma_in_flight_never_exceeds_budget(events.drop_last(), capacity);
    }
}

/// How a shard establishes its session: fresh, or continuing a persisted
/// session.
#[derive(Debug, PartialEq, Eq)]
pub enum Handshake {
    Identify,
    Resume(SessionInfo),
}

/// One shard's place in the bring-up plan.
#[derive(Debug, PartialEq, Eq)]
pub struct ShardPlan {
    pub shard: u64,
    pub handshake: Handshake,
}

/// One admission batch: issued together, after waiting `wait_before_ms`.
#[derive(Debug, PartialEq, Eq)]
pub struct Batch {
    pub wait_before_ms: u64,
    pub ops: Vec<ShardPlan>,
}

/// The handshake bring-up plans for a shard: resume exactly when resuming
/// is enabled and a session is persisted for it, else a fresh identify.
pub open spec fn planned_handshake(
    sessions: Seq<(u64, SessionInfo)>,
    resume_enabled: bool,
    shard: u64,
) -> Handshake {
    if resume_enabled && has_session(sessions, shard) {
        Handshake::Resume(session_for(sessions, shard)->Some_0)
    } else {
        Handshake::Identify
    }
}

/// A shard with a persisted session is resumed, never re-identified, while
/// resuming is enabled.
pub proof fn lemma_resume_preferred(
    sessions: Seq<(u64, SessionInfo)>,
    shard: u64,
    info: SessionInfo,
)
    requires
        session_for(sessions, shard) == Some(info),
    ensures
        planned_handshake(sessions, true, shard) == Handshake::Resume(info),
{
}

/// How many batches `len` shards need under a budget of `conc` per batch.
pub open spec fn num_batches(len: int, conc: int) -> int {
    if len == 0 {
        0
    } else {
        (len - 1) / conc + 1
    }
}

/// Size of batch `b`: full, except a shorter final batch.
pub open spec fn batch_size(len: int, conc: int, b: int) -> int {
    if len - b * conc < conc {
        len - b * conc
    } else {
        conc
    }
}

/// What the bring-up planner guarantees, over the views of its inputs and
/// output: batches cover the cluster's shards in order, none larger than
/// the concurrency budget, every batch after the first preceded by the
/// configured wait, and each shard's handshake chosen by
/// `planned_handshake`.
pub open spec fn is_bring_up_plan(
    plan: Seq<(u64, Seq<ShardPlan>)>,
    shards: Seq<u64>,
    sessions: Seq<(u64, SessionInfo)>,
    resume_enabled: bool,
    conc: u64,
    wait_ms: u64,
) -> bool {
    &&& plan.len() == num_batches(shards.len() as int, conc as int)
    &&& forall|b: int| 0 <= b < plan.len() ==> (#[trigger] plan[b]).1.len() == batch_size(
        shards.len() as int,
        conc as int,
        b,
    )
    &&& forall|b: int| 0 <= b < plan.len() ==> (#[trigger] plan[b]).0 == if b == 0 {
        0u64
    } else {
        wait_ms
    }
    &&& forall|b: int, j: int|
        0 <= b < plan.len() && 0 <= j < plan[b].1.len() ==> (#[trigger] plan[b].1[j]).shard
            == shards[b * conc + j]
    &&& forall|b: int, j: int|
        0 <= b < plan.len() && 0 <= j < plan[b].1.len() ==> (#[trigger] plan[b].1[j]).handshake
            == planned_handshake(sessions, resume_enabled, plan[b].1[j].shard)
}

/// A bring-up plan never admits more than the concurrency budget at once
/// — no batch is larger than `conc` — and every batch after the first is
/// preceded by the configured wait.
pub proof fn lemma_plan_respects_budget(
    plan: Seq<(u64, Seq<ShardPlan>)>,
    shards: Seq<u64>,
    sessions: Seq<(u64, SessionInfo)>,
    resume_enabled: bool,
    conc: u64,
    wait_ms: u64,
)
    requires
        is_bring_up_plan(plan, shards, sessions, resume_enabled, conc, wait_ms),
    ensures
        forall|b: int| 0 <= b < plan.len() ==> (#[trigger] plan[b]).1.len() <= conc,
        forall|b: int| 0 < b < plan.len() ==> (#[trigger] plan[b]).0 == wait_ms,
{
    assert forall|b: int| 0 <= b < plan.len() implies (#[trigger] plan[b]).1.len() <= conc by {
        assert(plan[b].1.len() == batch_size(shards.len() as int, conc as int, b));
    }
}

/// A bring-up plan admits every shard of the cluster exactly once: shard
/// `i` of the cluster stands at position `i % conc` of batch `i / conc`
/// (`lemma_plan_covers_shard`), and no two distinct batch positions stand
/// for the same cluster position (`lemma_plan_positions_distinct`).
pub proof fn lemma_plan_covers_shard(
    plan: Seq<(u64, Seq<ShardPlan>)>,
    shards: Seq<u64>,
    sessions: Seq<(u64, SessionInfo)>,
    resume_enabled: bool,
    conc: u64,
    wait_ms: u64,
    i: int,
)
    requires
        is_bring_up_plan(plan, shards, sessions, resume_enabled, conc, wait_ms),
        conc >= 1,
        0 <= i < shards.len(),
    ensures
        0 <= i / (conc as int) < plan.len(),
        0 <= i % (conc as int) < plan[i / (conc as int)].1.len(),
        shards[i] == plan[i / (conc as int)].1[i % (conc as int)].shard,
{
    let ci = conc as int;
    let len = shards.len() as int;
    let b = i / ci;
    let j = i % ci;
    lemma_fundamental_div_mod(i, ci);
    lemma_div_is_ordered(0, i, ci);
    lemma_div_is_ordered(i, len - 1, ci);
    assert(plan.len() == (len - 1) / ci + 1);
    assert(plan[b].1.len() == batch_size(len, ci, b));
    assert(shards[b * ci + j] == plan[b].1[j].shard);
}

/// No two distinct batch positions of a bring-up plan stand for the same
/// cluster position: each handshake is admitted once.
pub proof fn lemma_plan_positions_distinct(
    plan: Seq<(u64, Seq<ShardPlan>)>,
    shards: Seq<u64>,
    sessions: Seq<(u64, SessionInfo)>,
    resume_enabled: bool,
    conc: u64,
    wait_ms: u64,
    b1: int,
    j1: int,
    b2: int,
    j2: int,
)
    requires
        is_bring_up_plan(plan, shards, sessions, resume_enabled, conc, wait_ms),
        0 <= b1 < plan.len(),
        0 <= j1 < plan[b1].1.len(),
        0 <= b2 < plan.len(),
        0 <= j2 < plan[b2].1.len(),
        b1 * conc + j1 == b2 * conc + j2,
    ensures
        b1 == b2,
        j1 == j2,
{
    let ci = conc as int;
    let len = shards.len() as int;
    assert(plan[b1].1.len() == batch_size(len, ci, b1));
    assert(plan[b2].1.len() == batch_size(len, ci, b2));
    assert(j1 < ci && j2 < ci);
    if b1 < b2 {
        assert((b1 + 1) * ci <= b2 * ci) by (nonlinear_arith)
            requires
                b1 + 1 <= b2,
                ci >= 1,
        ;
        assert((b1 + 1) * ci == b1 * ci + ci) by (nonlinear_arith);
    }
    if b2 < b1 {
        assert((b2 + 1) * ci <= b1 * ci) by (nonlinear_arith)
            requires
                b2 + 1 <= b1,
                ci >= 1,
        ;
        assert((b2 + 1) * ci == b2 * ci + ci) by (nonlinear_arith);
    }
}

/// The view of a built plan: each batch as its wait and the view of its
/// operations.
pub open spec fn plan_view(plan: Seq<Batch>) -> Seq<(u64, Seq<ShardPlan>)> {
    plan.map_values(|b: Batch| (b.wait_before_ms, b.ops@))
}

/// Plans a cluster's bring-up: its shards in order, grouped into batches
/// of at most `conc` handshakes — the admission bound is respected by
/// construction — with at least `wait_ms` before each batch after the
/// first, resuming each shard that has a persisted session when
/// `resume_enabled`, identifying fresh otherwise.
pub fn bring_up_plan(
    shards: &Vec<u64>,
    sessions: &Vec<(u64, SessionInfo)>,
    resume_enabled: bool,
    conc: u64,
    wait_ms: u64,
) -> (plan: Vec<Batch>)
    requires
        conc >= 1,
    ensures
        is_bring_up_plan(plan_view(plan@), shards@, sessions@, resume_enabled, conc, wait_ms),
{
    let len = shards.len();
    let mut plan: Vec<Batch> = Vec::new();
    let mut i: usize = 0;
    proof {
        assert(0int * conc as int == 0) by (nonlinear_arith);
    }
    while i < len
        invariant
            conc >= 1,
            len == shards@.len(),
            0 <= i <= len,
            i < len ==> i as int == plan@.len() * conc as int,
            i == len ==> plan@.len() == num_batches(len as int, conc as int),
            forall|b: int|
                0 <= b < plan@.len() ==> (#[trigger] plan@[b]).ops@.len() == batch_size(
                    len as int,
                    conc as int,
                    b,
                ),
            forall|b: int|
                0 <= b < plan@.len() ==> (#[trigger] plan@[b]).wait_before_ms == if b == 0 {
                    0u64
                } else {
                    wait_ms
                },
            forall|b: int, j: int|
                0 <= b < plan@.len() && 0 <= j < plan@[b].ops@.len() ==> (
                #[trigger] plan@[b].ops@[j]).shard == shards@[b * conc as int + j],
            forall|b: int, j: int|
                0 <= b < plan@.len() && 0 <= j < plan@[b].ops@.len() ==> (
                #[trigger] plan@[b].ops@[j]).handshake == planned_handshake(
                    sessions@,
                    resume_enabled,
                    plan@[b].ops@[j].shard,
                ),
        decreases len - i,
    {
        let remaining = len - i;
        let bsize: usize = if (remaining as u64) < conc {
            remaining
        } else {
            conc as usize
        };
        let ghost bl = plan@.len() as int;
        proof {
            assert(i as int == bl * conc as int);
            assert(bsize as int == batch_size(len as int, conc as int, bl));
        }
        let mut ops: Vec<ShardPlan> = Vec::new();
        let mut j: usize = 0;
        while j < bsize
            invariant
                0 <= j <= bsize,
                i + bsize <= len,
                len == shards@.len(),
                ops@.len() == j,
                forall|ji: int|
                    0 <= ji < j ==> (#[trigger] ops@[ji]).shard == shards@[i as int + ji],
                forall|ji: int|
                    0 <= ji < j ==> (#[trigger] ops@[ji]).handshake == planned_handshake(
                        sessions@,
                        resume_enabled,
                        ops@[ji].shard,
                    ),
            decreases bsize - j,
        {
            let shard = shards[i + j];
            let handshake = if resume_enabled {
                match crate::sessions::find_session(sessions, shard) {
                    Some(info) => Handshake::Resume(info),
                    None => Handshake::Identify,
                }
            } else {
                Handshake::Identify
            };
            ops.push(ShardPlan { shard, handshake });
            j = j + 1;
        }
        let wait_before_ms = if plan.len() == 0 {
            0
        } else {
            wait_ms
        };
        plan.push(Batch { wait_before_ms, ops });
        i = i + bsize;
        proof {
            assert((bl + 1) * conc as int == bl * conc as int + conc as int) by (nonlinear_arith);
            if i < len {
                assert(bsize == conc);
            } else {
                lemma_fundamental_div_mod_converse(
                    len as int - 1,
                    conc as int,
                    bl,
                    bsize as int - 1,
                );
            }
            assert forall|b: int, j2: int|
                0 <= b < plan@.len() && 0 <= j2 < plan@[b].ops@.len() implies (
            #[trigger] plan@[b].ops@[j2]).shard == shards@[b * conc as int + j2] by {
                if b == bl {
                    assert(plan@[b].ops@[j2].shard == shards@[bl * conc as int + j2]);
                }
            }
        }
    }
    proof {
        if len == 0 {
            assert(plan@.len() == 0);
        }
        let pv = plan_view(plan@);
        assert forall|b: int| 0 <= b < pv.len() implies (#[trigger] pv[b]).1.len() == batch_size(
            len as int,
            conc as int,
            b,
        ) && pv[b].0 == (if b == 0 {
            0u64
        } else {
            wait_ms
        }) by {
            assert(pv[b] == (plan@[b].wait_before_ms, plan@[b].ops@));
        }
        assert forall|b: int, j: int|
            0 <= b < pv.len() && 0 <= j < pv[b].1.len() implies (#[trigger] pv[b].1[j]).shard
            == shards@[b * conc as int + j] && pv[b].1[j].handshake == planned_handshake(
            sessions@,
            resume_enabled,
            pv[b].1[j].shard,
        ) by {
            assert(pv[b] == (plan@[b].wait_before_ms, plan@[b].ops@));
        }
    }
    plan
}

} // verus!
