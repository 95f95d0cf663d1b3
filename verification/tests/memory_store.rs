//! The in-memory checkpoint store.
use takeln::store::memory::MemoryCheckpoint;
use takeln::{
    CheckpointStatus, ClaimResult, InMemoryCheckpointer, RetentionPolicy, TakelnError, TimeSpan, Timestamp,
    YieldRequest, DAG,
};

#[derive(Clone, Default, Debug, PartialEq)]
struct TestState {
    value: String,
}

fn state(value: &str) -> TestState {
    TestState { value: value.to_string() }
}

fn save(
    cp: &mut InMemoryCheckpointer<TestState>,
    thread: &str,
    value: &str,
    next: &str,
    status: CheckpointStatus,
) -> String {
    cp.save_state(thread, state(value), next.to_string(), None, status, None, None, None)
}

#[test]
fn test_in_memory_checkpointer() {
    let mut checkpointer = InMemoryCheckpointer::<TestState>::new();
    save(&mut checkpointer, "thread_1", "init", "next_step", CheckpointStatus::Complete);

    let loaded = checkpointer.load_state("thread_1");
    assert!(loaded.is_some());
    let (s, meta, _) = loaded.unwrap();
    assert_eq!(s.value, "init");
    assert_eq!(meta.next_node, "next_step");
}

#[test]
fn test_time_travel_checkpointing() {
    let mut checkpointer = InMemoryCheckpointer::<TestState>::new();
    let thread_id = "thread_time_travel";
    let id1 = save(&mut checkpointer, thread_id, "step1", "NodeB", CheckpointStatus::Complete);
    let id2 = save(&mut checkpointer, thread_id, "step2", "NodeC", CheckpointStatus::Complete);

    let checkpoints = checkpointer.list_checkpoints(thread_id);
    assert_eq!(checkpoints.len(), 2);
    assert_eq!(checkpoints[0].checkpoint_id, id1);
    assert_eq!(checkpoints[0].next_node, "NodeB");
    assert_eq!(checkpoints[1].checkpoint_id, id2);
    assert_eq!(checkpoints[1].next_node, "NodeC");

    let loaded1 = checkpointer.load_version(thread_id, &id1).unwrap();
    assert_eq!(loaded1.0.value, "step1");
    assert_eq!(loaded1.1.next_node, "NodeB");

    let loaded2 = checkpointer.load_version(thread_id, &id2).unwrap();
    assert_eq!(loaded2.0.value, "step2");
    assert_eq!(loaded2.1.next_node, "NodeC");
}

#[test]
fn test_retention_keep_last_3() {
    let mut cp = InMemoryCheckpointer::<TestState>::new();
    let tid = "thread_retain";
    for i in 0..10 {
        save(&mut cp, tid, &format!("v{}", i), &format!("Node{}", i), CheckpointStatus::Complete);
    }
    let all = cp.list_checkpoints(tid);
    assert_eq!(all.len(), 10);

    let deleted = cp.delete_checkpoints(tid, RetentionPolicy::KeepLast(3)).unwrap();
    assert_eq!(deleted, 7);

    let remaining = cp.list_checkpoints(tid);
    assert_eq!(remaining.len(), 3);
    // The latest 3 should survive (Node7, Node8, Node9)
    assert_eq!(remaining[0].next_node, "Node7");
    assert_eq!(remaining[1].next_node, "Node8");
    assert_eq!(remaining[2].next_node, "Node9");
}

#[test]
fn test_retention_keep_all() {
    let mut cp = InMemoryCheckpointer::<TestState>::new();
    let tid = "thread_keep_all";
    for i in 0..5 {
        save(&mut cp, tid, &format!("v{}", i), &format!("Node{}", i), CheckpointStatus::Complete);
    }
    let deleted = cp.delete_checkpoints(tid, RetentionPolicy::KeepAll).unwrap();
    assert_eq!(deleted, 0);
    assert_eq!(cp.list_checkpoints(tid).len(), 5);
}

#[test]
fn test_retention_keep_last_more_than_available() {
    let mut cp = InMemoryCheckpointer::<TestState>::new();
    let tid = "thread_retain_more";
    save(&mut cp, tid, "v0", "Node0", CheckpointStatus::Complete);
    let deleted = cp.delete_checkpoints(tid, RetentionPolicy::KeepLast(10)).unwrap();
    assert_eq!(deleted, 0);
    assert_eq!(cp.list_checkpoints(tid).len(), 1);
}

#[test]
fn test_delete_nonexistent_thread() {
    let mut cp = InMemoryCheckpointer::<TestState>::new();
    let deleted = cp.delete_checkpoints("no_such_thread", RetentionPolicy::KeepLast(1)).unwrap();
    assert_eq!(deleted, 0);
}

#[test]
fn test_checkpoint_status_persists() {
    let mut cp = InMemoryCheckpointer::<TestState>::new();
    let tid = "thread_status";
    save(&mut cp, tid, "running", "NodeA", CheckpointStatus::Running);

    let (_, meta, _) = cp.load_state(tid).unwrap();
    assert_eq!(meta.status, CheckpointStatus::Running);
    assert_eq!(meta.thread_id, tid);
    assert_eq!(meta.next_node, "NodeA");

    // Save a yielded checkpoint
    save(&mut cp, tid, "yielded", "NodeB", CheckpointStatus::Yielded);
    let (_, meta2, _) = cp.load_state(tid).unwrap();
    assert_eq!(meta2.status, CheckpointStatus::Yielded);
}

#[test]
fn test_checkpoint_meta_in_list() {
    let mut cp = InMemoryCheckpointer::<TestState>::new();
    let tid = "thread_meta_list";
    save(&mut cp, tid, "", "A", CheckpointStatus::Complete);
    save(&mut cp, tid, "", "B", CheckpointStatus::Interrupted);
    let list = cp.list_checkpoints(tid);
    assert_eq!(list.len(), 2);
    assert_eq!(list[0].status, CheckpointStatus::Complete);
    assert_eq!(list[1].status, CheckpointStatus::Interrupted);
}

#[test]
fn test_load_nonexistent_thread() {
    let cp = InMemoryCheckpointer::<TestState>::new();
    assert!(cp.load_state("nonexistent_thread").is_none());
}

#[test]
fn test_load_version_nonexistent() {
    let mut cp = InMemoryCheckpointer::<TestState>::new();
    assert!(cp.load_version("nonexistent_thread", "nonexistent_id").is_none());
    save(&mut cp, "t", "", "A", CheckpointStatus::Complete);
    assert!(cp.load_version("t", "nonexistent_id").is_none());
}

#[test]
fn test_concurrent_saves_same_thread() {
    let cp = std::sync::Arc::new(std::sync::Mutex::new(InMemoryCheckpointer::<TestState>::new()));
    let tid = "thread_concurrent";
    let runtime = tokio::runtime::Runtime::new().unwrap();
    runtime.block_on(async {
        let mut handles = vec![];
        for i in 0..10 {
            let cp = cp.clone();
            handles.push(tokio::spawn(async move {
                save(
                    &mut cp.lock().unwrap(),
                    tid,
                    &format!("v{}", i),
                    &format!("Node{}", i),
                    CheckpointStatus::Complete,
                );
            }));
        }
        for handle in handles {
            handle.await.unwrap();
        }
    });
    assert_eq!(cp.lock().unwrap().list_checkpoints(tid).len(), 10);
}

#[test]
fn test_checkpoint_throughput_10k() {
    let mut cp = InMemoryCheckpointer::<TestState>::new();
    let start = std::time::Instant::now();
    for i in 0..10_000 {
        save(&mut cp, &format!("thread_{}", i % 100), "42", "next", CheckpointStatus::Complete);
    }
    let elapsed = start.elapsed();
    assert!(elapsed.as_secs() < 10, "10,000 saves took {:?}, expected < 10s", elapsed);
    assert_eq!(cp.list_checkpoints("thread_99").len(), 100);
}

#[test]
fn parallel_claims_have_one_winner() {
    let cp = std::sync::Arc::new(std::sync::Mutex::new(InMemoryCheckpointer::<TestState>::new()));
    let request = Some(YieldRequest::simple("gate"));
    cp.lock().unwrap().save_state(
        "t",
        state("waiting"),
        "A".to_string(),
        None,
        CheckpointStatus::Yielded,
        request,
        None,
        None,
    );
    let runtime = tokio::runtime::Runtime::new().unwrap();
    let claims = runtime.block_on(async {
        let mut handles = vec![];
        for _ in 0..8 {
            let cp = cp.clone();
            handles.push(tokio::spawn(async move { cp.lock().unwrap().claim_interrupt("t", "gate").unwrap() }));
        }
        let mut claims = vec![];
        for handle in handles {
            claims.push(handle.await.unwrap());
        }
        claims
    });
    assert_eq!(claims.iter().filter(|c| **c == ClaimResult::Claimed).count(), 1);
    assert_eq!(claims.iter().filter(|c| **c == ClaimResult::InProgress).count(), 7);
}

#[test]
fn threads_do_not_share_checkpoints() {
    let mut cp = InMemoryCheckpointer::<TestState>::new();
    save(&mut cp, "a", "1", "A", CheckpointStatus::Complete);
    save(&mut cp, "b", "2", "B", CheckpointStatus::Complete);
    save(&mut cp, "a", "3", "C", CheckpointStatus::Complete);
    assert_eq!(cp.list_checkpoints("a").len(), 2);
    assert_eq!(cp.list_checkpoints("b").len(), 1);
    assert_eq!(cp.delete_checkpoints("a", RetentionPolicy::KeepLast(0)).unwrap(), 2);
    assert!(cp.load_state("a").is_none());
    assert_eq!(cp.load_state("b").unwrap().0.value, "2");
}

#[test]
fn dags_and_requests_are_kept() {
    let mut cp = InMemoryCheckpointer::<TestState>::new();
    let mut dag = DAG::new();
    let id = dag.add_node("step_a", vec![]);
    cp.save_state(
        "t",
        state("with_dag"),
        "step_a".to_string(),
        Some(&dag),
        CheckpointStatus::Yielded,
        Some(YieldRequest::simple("go on?")),
        Some("claimed".to_string()),
        Some("resolved".to_string()),
    );
    let (_, meta, saved) = cp.load_state("t").unwrap();
    assert_eq!(saved.unwrap().nodes[0].id, id);
    assert_eq!(meta.yield_request.unwrap().message, "go on?");
    assert_eq!(meta.claimed_interrupt.as_deref(), Some("claimed"));
    assert_eq!(meta.resolved_interrupt.as_deref(), Some("resolved"));
}

fn at(secs: i64, next: &str) -> MemoryCheckpoint<TestState> {
    MemoryCheckpoint {
        checkpoint_id: next.to_string(),
        state: TestState::default(),
        next_node: next.to_string(),
        dag: None,
        status: CheckpointStatus::Complete,
        created_at: Timestamp { secs, nanos: 500 },
        yield_request: None,
        claimed_interrupt: None,
        resolved_interrupt: None,
    }
}

#[test]
fn old_checkpoints_are_deleted() {
    let mut cp = InMemoryCheckpointer::<TestState>::new();
    for (secs, next) in [(10, "A"), (40, "B"), (20, "C"), (41, "D")] {
        cp.append("t", at(secs, next));
    }
    let minute = RetentionPolicy::OlderThan(TimeSpan { secs: 60, nanos: 0 });
    let now = Timestamp { secs: 100, nanos: 500 };
    assert_eq!(cp.delete_checkpoints_at("t", minute, now).unwrap(), 2);
    let left: Vec<String> = cp.list_checkpoints("t").into_iter().map(|m| m.next_node).collect();
    assert_eq!(left, vec!["B", "D"]);
    assert_eq!(cp.delete_checkpoints_at("t", minute, now).unwrap(), 0);
    let later = Timestamp { secs: 100, nanos: 501 };
    assert_eq!(cp.delete_checkpoints_at("t", minute, later).unwrap(), 1);
    // Against the clock, everything is old by now.
    assert_eq!(cp.delete_checkpoints("t", minute).unwrap(), 1);
    assert_eq!(cp.delete_checkpoints("t", minute).unwrap(), 0);
}

#[test]
fn endless_spans_are_refused_for_known_threads() {
    let mut cp = InMemoryCheckpointer::<TestState>::new();
    let endless = RetentionPolicy::OlderThan(TimeSpan { secs: u64::MAX, nanos: 0 });
    assert_eq!(cp.delete_checkpoints("t", endless).unwrap(), 0);
    assert!(!cp.knows_thread("t"));
    save(&mut cp, "t", "", "A", CheckpointStatus::Complete);
    match cp.delete_checkpoints("t", endless) {
        Err(TakelnError::CheckpointError(text)) => {
            assert_eq!(text, "Source duration value is out of range for the target type")
        }
        other => panic!("{:?}", other),
    }
    assert_eq!(cp.list_checkpoints("t").len(), 1);
}

#[test]
fn claims_have_one_winner() {
    let mut cp = InMemoryCheckpointer::<TestState>::new();
    assert!(matches!(cp.claim_interrupt("t", "i"), Err(TakelnError::NothingToResume(t)) if t == "t"));
    save(&mut cp, "t", "", "A", CheckpointStatus::Complete);
    assert_eq!(
        cp.claim_interrupt("t", "i").unwrap_err().message(),
        "Nothing to resume for thread 'Thread 't' latest checkpoint status is Complete, expected Yielded'"
    );
    let request = YieldRequest::new("i", "please");
    cp.save_state("t", state("s"), "A".into(), None, CheckpointStatus::Yielded, Some(request), None, None);
    assert!(matches!(cp.claim_interrupt("t", "j"), Err(TakelnError::InvalidResume(_))));
    assert_eq!(cp.claim_interrupt("t", "i").unwrap(), ClaimResult::Claimed);
    let (_, meta, _) = cp.load_state("t").unwrap();
    assert_eq!(meta.status, CheckpointStatus::Running);
    assert_eq!(meta.claimed_interrupt.as_deref(), Some("i"));
    assert_eq!(cp.claim_interrupt("t", "i").unwrap(), ClaimResult::InProgress);
    assert_eq!(
        cp.claim_interrupt("t", "j").unwrap_err().message(),
        "Execution error: Resume claim failed: thread 't' is already running with claimed_interrupt 'i'"
    );
    cp.save_state("t", state("s"), "B".into(), None, CheckpointStatus::Complete, None, None, Some("i".into()));
    assert_eq!(cp.claim_interrupt("t", "i").unwrap(), ClaimResult::AlreadyCompleted);
    save(&mut cp, "t", "", "C", CheckpointStatus::Complete);
    assert_eq!(cp.claim_interrupt("t", "i").unwrap(), ClaimResult::AlreadyCompleted);
}

#[test]
fn yielded_checkpoints_without_a_request_cannot_be_claimed() {
    let mut cp = InMemoryCheckpointer::<TestState>::new();
    save(&mut cp, "t", "", "A", CheckpointStatus::Yielded);
    assert_eq!(
        cp.claim_interrupt("t", "i").unwrap_err().message(),
        "Nothing to resume for thread 'Thread 't' has Yielded status but no yield_request metadata'"
    );
}
