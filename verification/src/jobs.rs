//! The periodic job scheduler: a fixed set of recurring maintenance tasks,
//! each with its own interval, run for the lifetime of the process. The
//! loop around the scheduler performs the due tasks; one task's failure is
//! the loop's to log and never stops the scheduler, which is why a tick
//! reports every due task unconditionally.

use vstd::prelude::*;

verus! {

/// One recurring task: its identity, its fixed interval, and when it last
/// ran.
#[derive(Clone, Copy, Debug, PartialEq, Eq, Structural)]
pub struct Job {
    pub id: u64,
    pub interval_ms: u64,
    pub last_run_ms: u64,
}

/// A job is due once its interval has passed since its last run.
pub open spec fn spec_due(j: Job, now_ms: u64) -> bool {
    now_ms >= j.last_run_ms + j.interval_ms
}

/// The ids of the due jobs among `s`, in order.
pub open spec fn due_ids(s: Seq<Job>, now_ms: u64) -> Seq<u64>
    decreases s.len(),
{
    if s.len() == 0 {
        Seq::empty()
    } else {
        let rest = due_ids(s.drop_last(), now_ms);
        if spec_due(s.last(), now_ms) {
            rest.push(s.last().id)
        } else {
            rest
        }
    }
}

/// Whether `j` is due at `now_ms`.
pub fn job_due(j: &Job, now_ms: u64) -> (r: bool)
    ensures
        r == spec_due(*j, now_ms),
{
    now_ms >= j.last_run_ms && now_ms - j.last_run_ms >= j.interval_ms
}

/// One scheduler pass at `now_ms`: marks every due job as run now, leaves
/// the others untouched, and reports the ids of the due jobs, in order,
/// for the loop to perform.
pub fn scheduler_tick(jobs: &mut Vec<Job>, now_ms: u64) -> (due: Vec<u64>)
    ensures
        final(jobs)@.len() == old(jobs)@.len(),
        forall|i: int|
            0 <= i < old(jobs)@.len() ==> final(jobs)@[i] == if spec_due(
                #[trigger] old(jobs)@[i],
                now_ms,
            ) {
                Job {
                    id: old(jobs)@[i].id,
                    interval_ms: old(jobs)@[i].interval_ms,
                    last_run_ms: now_ms,
                }
            } else {
                old(jobs)@[i]
            },
        due@ == due_ids(old(jobs)@, now_ms),
{
    let ghost orig = jobs@;
    let mut due: Vec<u64> = Vec::new();
    let mut i: usize = 0;
    while i < jobs.len()
        invariant
            0 <= i <= orig.len(),
            jobs@.len() == orig.len(),
            forall|j: int| i <= j < orig.len() ==> #[trigger] jobs@[j] == orig[j],
            forall|j: int|
                0 <= j < i ==> jobs@[j] == if spec_due(#[trigger] orig[j], now_ms) {
                    Job { id: orig[j].id, interval_ms: orig[j].interval_ms, last_run_ms: now_ms }
                } else {
                    orig[j]
                },
            due@ == due_ids(orig.take(i as int), now_ms),
        decreases orig.len() - i,
    {
        proof {
            assert(orig.take(i + 1).drop_last() =~= orig.take(i as int));
            assert(orig.take(i + 1).last() == orig[i as int]);
        }
        let j = jobs[i];
        if job_due(&j, now_ms) {
            due.push(j.id);
            jobs[i] = Job { id: j.id, interval_ms: j.interval_ms, last_run_ms: now_ms };
        }
        i = i + 1;
    }
    proof {
        assert(orig.take(orig.len() as int) =~= orig);
    }
    due
}

/// A job marked as run is not due again until its full interval passes:
/// successive runs of one job are separated by at least its interval.
pub proof fn lemma_interval_respected(j: Job, run_at_ms: u64, later_ms: u64)
    requires
        j.last_run_ms == run_at_ms,
        later_ms < run_at_ms + j.interval_ms,
    ensures
        !spec_due(j, later_ms),
{
}

} // verus!
