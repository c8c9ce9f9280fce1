use gateway_fleet::admission::{bring_up_plan, AdmissionBudget, Handshake};
use gateway_fleet::events::GatewayEvent;
use gateway_fleet::sessions::{apply_session_event, find_session, resumable_sessions, SessionInfo};

fn session(id: &str, seq: u64) -> SessionInfo {
    SessionInfo { session_id: id.to_string(), sequence: seq }
}

#[test]
fn budget_grants_at_most_capacity() {
    let mut budget = AdmissionBudget::new(2);
    assert!(budget.try_acquire());
    assert!(budget.try_acquire());
    assert!(!budget.try_acquire());
    budget.release();
    assert!(budget.try_acquire());
    assert!(!budget.try_acquire());
}

#[test]
fn plan_batches_respect_concurrency_and_wait() {
    let shards = vec![0, 1, 2, 3, 4];
    let sessions: Vec<(u64, SessionInfo)> = Vec::new();
    let plan = bring_up_plan(&shards, &sessions, false, 2, 6000);
    assert_eq!(plan.len(), 3);
    assert_eq!(plan[0].wait_before_ms, 0);
    assert_eq!(plan[1].wait_before_ms, 6000);
    assert_eq!(plan[2].wait_before_ms, 6000);
    assert_eq!(plan[0].ops.len(), 2);
    assert_eq!(plan[1].ops.len(), 2);
    assert_eq!(plan[2].ops.len(), 1);
    let flat: Vec<u64> = plan.iter().flat_map(|b| b.ops.iter().map(|o| o.shard)).collect();
    assert_eq!(flat, shards);
}

#[test]
fn plan_resumes_shards_with_persisted_sessions() {
    let shards = vec![0, 1, 2];
    let sessions = vec![(1, session("abc", 17))];
    let plan = bring_up_plan(&shards, &sessions, true, 3, 0);
    assert_eq!(plan.len(), 1);
    assert_eq!(plan[0].ops[0].handshake, Handshake::Identify);
    assert_eq!(plan[0].ops[1].handshake, Handshake::Resume(session("abc", 17)));
    assert_eq!(plan[0].ops[2].handshake, Handshake::Identify);
}

#[test]
fn resume_disabled_identifies_everything() {
    let shards = vec![0, 1];
    let sessions = vec![(0, session("abc", 1)), (1, session("def", 2))];
    let plan = bring_up_plan(&shards, &sessions, false, 2, 0);
    for op in &plan[0].ops {
        assert_eq!(op.handshake, Handshake::Identify);
    }
}

#[test]
fn single_batch_when_budget_exceeds_cluster() {
    let shards = vec![0, 1, 2];
    let sessions: Vec<(u64, SessionInfo)> = Vec::new();
    let plan = bring_up_plan(&shards, &sessions, false, 10, 6000);
    assert_eq!(plan.len(), 1);
    assert_eq!(plan[0].wait_before_ms, 0);
    assert_eq!(plan[0].ops.len(), 3);
}

#[test]
fn empty_cluster_needs_no_batches() {
    let shards: Vec<u64> = Vec::new();
    let sessions: Vec<(u64, SessionInfo)> = Vec::new();
    let plan = bring_up_plan(&shards, &sessions, true, 4, 100);
    assert!(plan.is_empty());
}

#[test]
fn find_session_returns_first_match() {
    let sessions = vec![(0, session("a", 1)), (3, session("b", 2))];
    assert_eq!(find_session(&sessions, 3), Some(session("b", 2)));
    assert_eq!(find_session(&sessions, 1), None);
}

#[test]
fn save_captures_exactly_resumable_shards() {
    let state = vec![
        (0, Some(session("a", 10))),
        (1, None),
        (2, Some(session("b", 20))),
        (3, None),
    ];
    let saved = resumable_sessions(&state);
    assert_eq!(saved, vec![(0, session("a", 10)), (2, session("b", 20))]);
}

#[test]
fn session_ledger_follows_the_handshake_lifecycle() {
    // a completed identify opens a fresh session at sequence zero
    let ready = GatewayEvent::Ready { session_id: "abc".to_string(), bot_id: 1 };
    let opened = apply_session_event(&None, &ready);
    assert_eq!(opened, Some(session("abc", 0)));

    // a resume in progress advances the held session's sequence
    let resuming = GatewayEvent::Resuming { sequence: 17 };
    let advanced = apply_session_event(&opened, &resuming);
    assert_eq!(advanced, Some(session("abc", 17)));

    // resuming with no session held changes nothing
    assert_eq!(apply_session_event(&None, &resuming), None);

    // a resumable invalidation keeps the session; a final one closes it
    let soft = GatewayEvent::InvalidSession { resumable: true };
    assert_eq!(apply_session_event(&advanced, &soft), Some(session("abc", 17)));
    let hard = GatewayEvent::InvalidSession { resumable: false };
    assert_eq!(apply_session_event(&advanced, &hard), None);

    // other events leave the ledger entry as it was
    let other = GatewayEvent::Connected;
    assert_eq!(apply_session_event(&advanced, &other), Some(session("abc", 17)));
}

#[test]
fn budget_reports_held_slots() {
    let mut budget = AdmissionBudget::new(3);
    assert_eq!(budget.slots_held(), 0);
    budget.try_acquire();
    budget.try_acquire();
    assert_eq!(budget.slots_held(), 2);
    budget.release();
    assert_eq!(budget.slots_held(), 1);
}

#[test]
fn save_is_empty_when_nothing_is_resumable() {
    let state = vec![(0u64, None), (1u64, None)];
    let saved = resumable_sessions(&state);
    assert!(saved.is_empty());
}
