//! The parts of the library on concrete values.
use takeln::checkpoint::{decide_claim, settle_claim, LatestCheckpoint, PendingRequest};
use takeln::clock::{before, elapsed_ms, now};
use takeln::dynamic::{child_context, child_outcome, child_state, ChildRunner};
use takeln::emitter::{LogLevel, SpanError};
use takeln::graph::EventSequence;
use takeln::hitl::compute_response_hash;
use takeln::history::ExecutionHistory;
use takeln::identity::fresh_id_text;
use takeln::json::canonical_json;
use takeln::money::or_zero;
use takeln::schema::{json_type, validate_input_against_schema};
use takeln::sequential::{cancelled_error, timeout_error};
use takeln::store::postgres::parse_checkpoint_status;
use takeln::store::rows::{
    can_plan, plan_pruning, quoted_status, read_checkpoint, read_meta, CheckpointRow, Pruning,
};
use takeln::store::sqlite::{parse_status, read_created_at, read_created_at_or, write_created_at};
use takeln::text::{decimal_text, join, same_text};
use takeln::{
    CheckpointStatus, ClaimResult, CrashRecoveryPolicy, DAGNode, DynamicFnNode, Eur, ExecutionRecord,
    FnNode, Graph, GraphError, JsonNumber, JsonValue, NodeConfig, NodeContext, NodeMeta, NodeOutput,
    NodeStatus, ResourceLimits, ResumeContext, ResumeMode, RetentionPolicy, RetryPolicy, SpanContext,
    SpanStatus, TakelnError, TimeSpan, Timestamp, TracingEmitter, WaveFailurePolicy, YieldRequest, DAG,
};

fn eur(amount: f64) -> Eur {
    Eur { bits: amount.to_bits() }
}

fn text(s: &str) -> JsonValue {
    JsonValue::String(s.to_string())
}

fn whole(n: u64) -> JsonValue {
    JsonValue::Number(JsonNumber::PosInt(n))
}

fn float(t: &str) -> JsonValue {
    JsonValue::Number(JsonNumber::Float(t.to_string()))
}

fn object(entries: Vec<(&str, JsonValue)>) -> JsonValue {
    JsonValue::Object(entries.into_iter().map(|(k, v)| (k.to_string(), v)).collect())
}

// ── Contexts ────────────────────────────────────────────────────────────────

#[test]
fn execution_id_stable_across_attempts() {
    let ctx1 = NodeContext::new("thread1".into(), "nodeA".into(), 0, Some("cp1".into()), None, None, None);
    let ctx2 = NodeContext::new("thread1".into(), "nodeA".into(), 1, Some("cp1".into()), None, None, None);
    assert_eq!(ctx1.execution_id, ctx2.execution_id);
    assert_ne!(ctx1.attempt_id, ctx2.attempt_id);
}

#[test]
fn execution_id_changes_with_checkpoint() {
    let ctx1 = NodeContext::new("thread1".into(), "nodeA".into(), 0, Some("cp1".into()), None, None, None);
    let ctx2 = NodeContext::new("thread1".into(), "nodeA".into(), 0, Some("cp2".into()), None, None, None);
    assert_ne!(ctx1.execution_id, ctx2.execution_id);
}

#[test]
fn execution_id_is_derived_from_the_names() {
    let ctx = NodeContext::new("thread1".into(), "nodeA".into(), 0, Some("cp1".into()), None, None, None);
    assert_eq!(ctx.execution_id, "a5e89ec3-f6ce-548e-89de-6d057aac0667");
    let first = NodeContext::new("t".into(), "n".into(), 0, None, None, None, None);
    assert_eq!(first.execution_id, "c24213ce-58cd-5d6e-bf93-ed70f33bdb99");
}

#[test]
fn context_carries_its_token_and_input() {
    let token = tokio_util::sync::CancellationToken::new();
    let ctx = NodeContext::with_attempt_id(
        "t".into(),
        "n".into(),
        3,
        "attempt".into(),
        None,
        Some(eur(1.5)),
        Some(token.clone()),
        Some(text("yes")),
    );
    token.cancel();
    assert!(ctx.cancellation.unwrap().is_cancelled());
    assert_eq!(ctx.attempt, 3);
    assert_eq!(ctx.attempt_id, "attempt");
    assert_eq!(ctx.budget_remaining_eur, Some(eur(1.5)));
    assert!(ctx.resumed_input.unwrap().same(&text("yes")));
}

#[test]
fn fresh_ids_are_random_version_four() {
    let a = fresh_id_text();
    let b = fresh_id_text();
    assert_ne!(a, b);
    for id in [&a, &b] {
        let parsed = uuid::Uuid::parse_str(id).unwrap();
        assert_eq!(parsed.get_version_num(), 4);
        assert_eq!(parsed.to_string(), *id);
    }
}

// ── Money ───────────────────────────────────────────────────────────────────

#[test]
fn amounts_compare_like_doubles() {
    let amounts = [
        f64::NEG_INFINITY,
        -10.0,
        -1.0,
        -f64::MIN_POSITIVE,
        -5e-324,
        -0.0,
        0.0,
        5e-324,
        0.1,
        0.30000000000000004,
        1.0,
        5.0,
        10.0,
        f64::MAX,
        f64::INFINITY,
        f64::NAN,
        -f64::NAN,
    ];
    for a in amounts {
        for b in amounts {
            assert_eq!(eur(a).exceeds(&eur(b)), a > b, "{} > {}", a, b);
        }
    }
    assert_eq!(or_zero(None), eur(0.0));
    assert_eq!(or_zero(Some(eur(2.0))), eur(2.0));
}

// ── Retries ─────────────────────────────────────────────────────────────────

#[test]
fn delays_double_up_to_the_cap() {
    let policy = RetryPolicy { jitter: false, ..RetryPolicy::default() };
    let millis: Vec<u64> = (0..8u8).map(|a| span_ms(policy.delay_for(a))).collect();
    assert_eq!(millis, vec![500, 1000, 2000, 4000, 8000, 16000, 30000, 30000]);
    let uncapped = RetryPolicy { base_delay_ms: 1, max_delay_ms: u64::MAX, jitter: false, max_attempts: 3 };
    assert_eq!(span_ms(uncapped.delay_for(10)), 1024);
    assert_eq!(span_ms(uncapped.delay_for(11)), 2048);
    assert_eq!(span_ms(uncapped.delay_for(40)), 1 << 40);
    assert_eq!(span_ms(uncapped.delay_for(63)), 1 << 63);
    assert_eq!(span_ms(uncapped.delay_for(64)), u64::MAX);
    assert_eq!(span_ms(uncapped.delay_for(255)), u64::MAX);
    let slow = RetryPolicy { base_delay_ms: 1, max_delay_ms: 30_000, jitter: false, max_attempts: 20 };
    assert_eq!(span_ms(slow.delay_for(14)), 16_384);
    assert_eq!(span_ms(slow.delay_for(15)), 30_000);
    let none = RetryPolicy { base_delay_ms: 0, ..slow };
    assert_eq!(span_ms(none.delay_for(200)), 0);
}

#[test]
fn retries_wait_for_the_attempt_before() {
    let policy = RetryPolicy { jitter: false, ..RetryPolicy::default() };
    let waits: Vec<u64> = (0..4u8).map(|a| span_ms(policy.wait_before(a))).collect();
    assert_eq!(waits, vec![0, 500, 1000, 2000]);
    let jittered = RetryPolicy::default();
    assert_eq!(span_ms(jittered.wait_with_draw(0, 7)), 0);
    assert_eq!(span_ms(jittered.wait_with_draw(1, 0)), 438);
    assert_eq!(span_ms(jittered.wait_with_draw(1, 124)), 562);
}

#[test]
fn jitter_moves_a_delay_within_a_quarter() {
    let policy = RetryPolicy::default();
    // A delay of 500 ms has a band of 125 ms that starts 62 ms below it.
    assert_eq!(span_ms(policy.delay_with_draw(0, 0)), 438);
    assert_eq!(span_ms(policy.delay_with_draw(0, 124)), 562);
    assert_eq!(span_ms(policy.delay_with_draw(0, 125)), 438);
    for attempt in 0..12u8 {
        let plain = span_ms(RetryPolicy { jitter: false, ..policy }.delay_for(attempt));
        for _ in 0..50 {
            let drawn = span_ms(policy.delay_for(attempt));
            assert!(4 * drawn >= 3 * plain && 4 * drawn <= 5 * plain);
        }
    }
    let tiny = RetryPolicy { base_delay_ms: 3, ..policy };
    assert_eq!(span_ms(tiny.delay_with_draw(0, 99)), 3);
    let huge = RetryPolicy { base_delay_ms: u64::MAX, max_delay_ms: u64::MAX, ..policy };
    assert_eq!(huge.delay_with_draw(3, u64::MAX / 4 - 1).secs, u64::MAX / 1000);
}

#[test]
fn jittered_delays_vary() {
    let policy = RetryPolicy { base_delay_ms: 1_000_000, max_delay_ms: 1_000_000, ..RetryPolicy::default() };
    let first = span_ms(policy.delay_for(0));
    assert!((0..100).any(|_| span_ms(policy.delay_for(0)) != first));
}

fn span_ms(span: TimeSpan) -> u64 {
    span.secs * 1000 + (span.nanos / 1_000_000) as u64
}

// ── Time ────────────────────────────────────────────────────────────────────

#[test]
fn durations_are_whole_milliseconds() {
    let start = Timestamp { secs: 10, nanos: 999_999_999 };
    let end = Timestamp { secs: 11, nanos: 2_500_000 };
    assert_eq!(elapsed_ms(start, end), 2);
    assert_eq!(elapsed_ms(end, start), 0);
    assert_eq!(elapsed_ms(start, start), 0);
    assert_eq!(
        elapsed_ms(Timestamp { secs: i64::MIN, nanos: 0 }, Timestamp { secs: i64::MAX, nanos: 0 }),
        u64::MAX
    );
    assert!(elapsed_ms(now(), now()) < 1000);
}

#[test]
fn clock_runs_like_the_system_clock() {
    let system = chrono::Utc::now().timestamp();
    assert!((now().secs - system).abs() <= 2);
}

#[test]
fn times_before_are_exact() {
    let at = Timestamp { secs: 100, nanos: 250 };
    assert_eq!(
        before(at, TimeSpan { secs: 0, nanos: 251 }),
        Some(Timestamp { secs: 99, nanos: 999_999_999 })
    );
    assert_eq!(before(at, TimeSpan { secs: 101, nanos: 0 }), Some(Timestamp { secs: -1, nanos: 250 }));
    let epoch = Timestamp { secs: 0, nanos: 0 };
    assert_eq!(
        before(epoch, TimeSpan { secs: 8_334_601_228_800, nanos: 0 }),
        Some(Timestamp { secs: -8_334_601_228_800, nanos: 0 })
    );
    assert_eq!(before(epoch, TimeSpan { secs: 8_334_601_228_800, nanos: 1 }), None);
    // The bounds are those of the calendar.
    assert!(chrono::DateTime::from_timestamp(-8_334_601_228_800, 0).is_some());
    assert!(chrono::DateTime::from_timestamp(-8_334_601_228_801, 0).is_none());
    assert!(chrono::DateTime::from_timestamp(8_210_266_876_799, 0).is_some());
    assert!(chrono::DateTime::from_timestamp(8_210_266_876_800, 0).is_none());
}

#[test]
fn stored_times_read_back() {
    for at in [
        Timestamp { secs: 0, nanos: 0 },
        Timestamp { secs: 1_431_648_000, nanos: 0 },
        Timestamp { secs: 1_431_648_000, nanos: 120_000_000 },
        Timestamp { secs: 253_402_300_799, nanos: 999_999_999 },
    ] {
        let text = write_created_at(at);
        assert_eq!(read_created_at(&text), at);
        assert_eq!(read_created_at_or(&text, Timestamp { secs: 1, nanos: 1 }), at);
    }
    assert_eq!(write_created_at(Timestamp { secs: 1_431_648_000, nanos: 0 }), "2015-05-15T00:00:00+00:00");
    assert_eq!(
        read_created_at("1996-12-19T16:39:57-08:00"),
        Timestamp { secs: 851_042_397, nanos: 0 }
    );
    let fallback = Timestamp { secs: 7, nanos: 8 };
    assert_eq!(read_created_at_or("yesterday", fallback), fallback);
    assert!((read_created_at("yesterday").secs - now().secs).abs() <= 2);
}

// ── Texts ───────────────────────────────────────────────────────────────────

#[test]
fn numerals_are_decimal() {
    for n in [0u64, 9, 10, 42, 1000, 10_485_760, u64::MAX] {
        assert_eq!(decimal_text(n), n.to_string());
    }
    assert!(same_text("ab", "ab"));
    assert!(!same_text("ab", "abc"));
    assert_eq!(join(&vec![], ","), "");
    assert_eq!(join(&vec!["a".to_string()], ","), "a");
    assert_eq!(join(&vec!["a".to_string(), "b".to_string(), "c".to_string()], ", "), "a, b, c");
}

// ── Errors ──────────────────────────────────────────────────────────────────

#[test]
fn node_errors_have_texts() {
    assert_eq!(GraphError::Retryable("slow".into()).message(), "Retryable error: slow");
    assert_eq!(GraphError::Fatal("boom".into()).message(), "Fatal error: boom");
    assert_eq!(
        GraphError::Yield(YieldRequest::new("id", "please")).message(),
        "Suspended/Yielded: [id] please"
    );
    assert_eq!(
        GraphError::YieldInDynamicNode { interrupt_id: "id".into() }.message(),
        "HITL yield inside dynamic node is not supported (interrupt: 'id'). Move the yielding node to a top-level graph node."
    );
}

#[test]
fn runner_errors_have_texts() {
    let cases: Vec<(TakelnError, &str)> = vec![
        (TakelnError::NodeNotFound("A".into()), "Node 'A' not found in graph registry"),
        (TakelnError::CheckpointError("x".into()), "Checkpoint failure: x"),
        (
            TakelnError::DAGDeadlock("a, b".into()),
            "DAG deadlock — pending nodes with no satisfied dependencies: a, b",
        ),
        (TakelnError::JoinError("x".into()), "JoinSet panic: x"),
        (TakelnError::ExecutionError("x".into()), "Execution error: x"),
        (TakelnError::SerializationError("x".into()), "Serialization error: x"),
        (TakelnError::DeserializationError("x".into()), "Deserialization error: x"),
        (
            TakelnError::RecursionLimitExceeded { depth: 9, limit: 8 },
            "DAG recursion depth 9 exceeds global cap 8",
        ),
        (
            TakelnError::PartialWaveFailure {
                succeeded: vec!["A".into()],
                failed: vec![("B".into(), "boom".into())],
            },
            "Partial wave failure: [\"A\"] succeeded, [(\"B\", \"boom\")] failed",
        ),
        (TakelnError::NothingToResume("t".into()), "Nothing to resume for thread 't'"),
        (TakelnError::InvalidResume("x".into()), "Invalid resume: x"),
        (
            TakelnError::SchemaValidationFailed { interrupt_id: "i".into(), reason: "r".into() },
            "Schema validation failed for interrupt 'i': r",
        ),
        (
            TakelnError::StepLimitExceeded { steps: 1000, limit: 1000 },
            "Sequential step limit exceeded: 1000 steps (limit: 1000)",
        ),
    ];
    for (error, text) in cases {
        assert_eq!(error.message(), text);
    }
}

#[test]
fn timeouts_and_cancellations_are_node_errors() {
    let error = timeout_error("A", TimeSpan::from_millis(50));
    assert_eq!(error.message(), "Fatal error: Node 'A' timed out after 50ms");
    let error = timeout_error("A", TimeSpan { secs: 1, nanos: 500_000_000 });
    assert_eq!(error.message(), "Fatal error: Node 'A' timed out after 1.5s");
    match cancelled_error() {
        GraphError::Yield(request) => {
            assert_eq!(request.interrupt_id, "Cancelled");
            assert_eq!(request.message, "Cancelled");
            assert_eq!(request.resume_mode, ResumeMode::ReEntry);
        }
        other => panic!("{:?}", other),
    }
}

// ── Yield requests and resume contexts ──────────────────────────────────────

#[test]
fn yield_requests_are_built_up() {
    let request = YieldRequest::simple("Please approve");
    assert_eq!(request.interrupt_id, "Please approve");
    assert_eq!(request.message, "Please approve");
    assert!(request.schema.is_none());
    assert!(request.payload_ref.is_none());
    let request = YieldRequest::new("gate", "Please approve")
        .with_schema(object(vec![("type", text("string"))]))
        .with_resume_mode(ResumeMode::Handoff)
        .with_payload_ref("record-7");
    let copy = request.clone();
    assert_eq!(copy.interrupt_id, "gate");
    assert_eq!(copy.resume_mode, ResumeMode::Handoff);
    assert_eq!(copy.payload_ref.as_deref(), Some("record-7"));
    assert!(copy.schema.unwrap().same(&request.schema.unwrap()));
    assert_eq!(ResumeMode::default(), ResumeMode::ReEntry);
    let context = ResumeContext::new("alice").with_metadata(whole(1));
    assert_eq!(context.clone().actor.as_deref(), Some("alice"));
    assert!(context.clone().metadata.unwrap().same(&whole(1)));
    assert!(ResumeContext::default().actor.is_none());
}

// ── JSON ────────────────────────────────────────────────────────────────────

#[test]
fn json_values_compare_by_meaning() {
    assert!(JsonValue::Null.same(&JsonValue::Null));
    assert!(!JsonValue::Null.same(&JsonValue::Bool(false)));
    assert!(whole(1).same(&whole(1)));
    assert!(!whole(1).same(&float("1.0")));
    assert!(float("0.0").same(&float("-0.0")));
    assert!(!float("0.5").same(&float("-0.5")));
    assert!(JsonValue::Number(JsonNumber::NegInt(-1)).same(&JsonValue::Number(JsonNumber::NegInt(-1))));
    let a = object(vec![("x", whole(1)), ("y", JsonValue::Array(vec![whole(2), text("z")]))]);
    let b = object(vec![("y", JsonValue::Array(vec![whole(2), text("z")])), ("x", whole(1))]);
    let c = object(vec![("y", JsonValue::Array(vec![text("z"), whole(2)])), ("x", whole(1))]);
    assert!(a.same(&b) && b.same(&a));
    assert!(!a.same(&c));
    assert!(!a.same(&object(vec![("x", whole(1))])));
    assert!(!object(vec![("x", whole(1))]).same(&a));
    // The later of two entries with one key counts.
    assert!(object(vec![("x", whole(1)), ("x", whole(2))]).same(&object(vec![("x", whole(2))])));
    assert!(a.clone().same(&a));
    assert!(a.get("x").unwrap().same(&whole(1)));
    assert!(a.get("z").is_none());
    assert!(whole(1).get("x").is_none());
}

#[test]
fn json_texts_are_canonical() {
    let value = object(vec![
        (
            "b",
            JsonValue::Array(vec![
                JsonValue::Bool(true),
                JsonValue::Null,
                JsonValue::Number(JsonNumber::NegInt(-2)),
                float("0.5"),
            ]),
        ),
        ("a", whole(1)),
    ]);
    assert_eq!(canonical_json(&value), r#"{"a":1,"b":[true,null,-2,0.5]}"#);
    assert_eq!(canonical_json(&text("say \"hi\"\n")), r#""say \"hi\"\n""#);
    assert_eq!(canonical_json(&float("-0.0")), "-0.0");
    assert_eq!(canonical_json(&object(vec![("x", whole(1)), ("x", whole(2))])), r#"{"x":2}"#);
}

#[test]
fn response_hashes_are_sha256_of_the_canonical_text() {
    assert_eq!(
        compute_response_hash(&text("yes")),
        "6c76a9331e7f5ff9db2754d119a61395717be0c0877d0d8bd462197dff961e4c"
    );
    let ab = object(vec![("a", whole(1)), ("b", JsonValue::Array(vec![JsonValue::Bool(true), JsonValue::Null, JsonValue::Number(JsonNumber::NegInt(-2)), float("0.5")]))]);
    let ba = object(vec![("b", JsonValue::Array(vec![JsonValue::Bool(true), JsonValue::Null, JsonValue::Number(JsonNumber::NegInt(-2)), float("0.5")])), ("a", whole(1))]);
    assert_eq!(compute_response_hash(&ab), compute_response_hash(&ba));
    assert_eq!(
        compute_response_hash(&ab),
        "eaecc9e69fe1c8b24bac8f6128ad1a55e6438aa11831ba941e407a7fd49ac898"
    );
}

// ── Schemas ─────────────────────────────────────────────────────────────────

fn refusal(schema: &JsonValue, input: &JsonValue) -> Option<String> {
    match validate_input_against_schema("gate", input, schema) {
        Ok(()) => None,
        Err(TakelnError::SchemaValidationFailed { interrupt_id, reason }) => {
            assert_eq!(interrupt_id, "gate");
            Some(reason)
        }
        Err(other) => panic!("{:?}", other),
    }
}

#[test]
fn schema_types_are_checked() {
    let typed = |name: &str| object(vec![("type", text(name))]);
    let values: Vec<(&str, JsonValue)> = vec![
        ("null", JsonValue::Null),
        ("boolean", JsonValue::Bool(true)),
        ("integer", whole(3)),
        ("number", float("1.5")),
        ("string", text("x")),
        ("array", JsonValue::Array(vec![])),
        ("object", object(vec![])),
    ];
    for (name, value) in &values {
        assert_eq!(json_type(value), *name);
        for (other, _) in &values {
            let accepted = name == other || (*other == "number" && *name == "integer");
            let reason = refusal(&typed(other), value);
            if accepted {
                assert_eq!(reason, None);
            } else {
                assert_eq!(reason, Some(format!("Expected type '{}', got '{}'", other, name)));
            }
        }
    }
    // A schema without a usable type accepts any type.
    assert_eq!(refusal(&object(vec![("type", whole(1))]), &whole(1)), None);
    assert_eq!(refusal(&text("string"), &whole(1)), None);
    assert_eq!(refusal(&object(vec![]), &whole(1)), None);
}

#[test]
fn schema_enums_are_checked() {
    let schema = object(vec![
        ("type", text("string")),
        ("enum", JsonValue::Array(vec![text("approved"), text("rejected")])),
    ]);
    assert_eq!(refusal(&schema, &text("approved")), None);
    assert_eq!(
        refusal(&schema, &text("maybe")),
        Some(
            "Value String(\"maybe\") not in allowed enum values [String(\"approved\"), String(\"rejected\")]"
                .to_string()
        )
    );
    assert_eq!(refusal(&schema, &whole(1)), Some("Expected type 'string', got 'integer'".to_string()));
    let zeros = object(vec![("enum", JsonValue::Array(vec![float("0.0")]))]);
    assert_eq!(refusal(&zeros, &float("-0.0")), None);
    assert_eq!(
        refusal(&object(vec![("enum", JsonValue::Array(vec![]))]), &JsonValue::Null),
        Some("Value Null not in allowed enum values []".to_string())
    );
    assert_eq!(refusal(&object(vec![("enum", text("x"))]), &JsonValue::Null), None);
}

// ── DAGs ────────────────────────────────────────────────────────────────────

#[test]
fn test_dag_builder() {
    let dag = DAG::builder()
        .node("fetch", &[])
        .node("parse", &["fetch"])
        .node("score", &["parse"])
        .node("rank", &["parse"])
        .node("merge", &["score", "rank"])
        .build()
        .unwrap();
    assert_eq!(dag.nodes.len(), 5);
    // fetch has no deps
    assert!(dag.nodes[0].depends_on.is_empty());
    // parse depends on fetch
    assert_eq!(dag.nodes[1].depends_on.len(), 1);
    // merge depends on score and rank
    assert_eq!(dag.nodes[4].depends_on.len(), 2);
}

#[test]
fn test_dag_builder_missing_dep() {
    let result = DAG::builder().node("A", &["nonexistent"]).build();
    assert!(result.is_err());
    assert!(result.unwrap_err().contains("not found"));
}

#[test]
fn test_dag_builder_cycle_detection() {
    let result = DAG::builder().node("A", &["B"]).node("B", &["A"]).build();
    assert!(result.is_err());
    assert!(result.unwrap_err().contains("Cycle"));
}

#[test]
fn builder_resolves_names_to_identifiers() {
    let at = Timestamp { secs: 5, nanos: 0 };
    let dag = DAG::builder()
        .node("c", &["a", "b"])
        .node("a", &[])
        .node("b", &["a"])
        .build_with(100, at, vec![1, 2, 3])
        .unwrap();
    assert_eq!(dag.id, 100);
    assert_eq!(dag.created_at, at);
    let shape: Vec<(u128, &str, Vec<u128>)> =
        dag.nodes.iter().map(|n| (n.id, n.step_type.as_str(), n.depends_on.clone())).collect();
    assert_eq!(shape, vec![(1, "c", vec![2, 3]), (2, "a", vec![]), (3, "b", vec![2])]);
    assert!(dag.nodes.iter().all(|n| n.status == NodeStatus::Pending));
    let empty = DAG::builder().build().unwrap();
    assert!(empty.nodes.is_empty());
    assert_eq!(DAG::builder().node("a", &[]).len(), 1);
}

#[test]
fn builder_reports_the_first_unknown_dependency() {
    let result = DAG::builder().node("a", &[]).node("b", &["a", "x", "y"]).node("c", &["z"]).build();
    assert_eq!(result.unwrap_err(), "Dependency 'x' not found for node 'b'");
}

#[test]
fn builder_refuses_every_cycle() {
    assert_eq!(DAG::builder().node("a", &["a"]).build().unwrap_err(), "Cycle detected in DAG");
    let long = DAG::builder().node("r", &[]).node("a", &["c", "r"]).node("b", &["a"]).node("c", &["b"]);
    assert_eq!(long.build().unwrap_err(), "Cycle detected in DAG");
    // Entries of one name: a dependency on the name means the last of them.
    let renamed = DAG::builder().node("a", &[]).node("b", &["a"]).node("a", &["b"]);
    assert_eq!(renamed.build().unwrap_err(), "Cycle detected in DAG");
    let shadowed = DAG::builder().node("a", &["b"]).node("b", &["a"]).node("a", &[]);
    assert!(shadowed.build().is_ok());
}

#[test]
fn builder_takes_a_dependency_listed_twice() {
    let dag = DAG::builder().node("a", &[]).node("b", &["a", "a"]).build().unwrap();
    assert_eq!(dag.nodes[1].depends_on, vec![dag.nodes[0].id, dag.nodes[0].id]);
    let long = DAG::builder().node("c", &["b", "a", "b"]).node("b", &["a", "a", "a"]).node("a", &[]);
    assert_eq!(long.build().unwrap().nodes.len(), 3);
    let twice = DAG::builder().node("a", &["b"]).node("b", &["a", "a"]);
    assert_eq!(twice.build().unwrap_err(), "Cycle detected in DAG");
}

#[test]
fn builder_lets_the_last_of_a_name_count() {
    let at = Timestamp { secs: 5, nanos: 0 };
    let dag = DAG::builder()
        .node("a", &[])
        .node("a", &[])
        .node("b", &["a"])
        .build_with(0, at, vec![1, 2, 3])
        .unwrap();
    let ids: Vec<u128> = dag.nodes.iter().map(|n| n.id).collect();
    assert_eq!(ids, vec![1, 2, 3]);
    assert_eq!(dag.nodes[2].depends_on, vec![2]);
    let drawn = DAG::builder().node("a", &[]).node("a", &[]).node("a", &["a"]);
    // The last of the name depends on itself.
    assert_eq!(drawn.build().unwrap_err(), "Cycle detected in DAG");
    let drawn = DAG::builder().node("a", &[]).node("a", &[]).build().unwrap();
    assert_ne!(drawn.nodes[0].id, drawn.nodes[1].id);
}

#[test]
fn nodes_are_added_with_fresh_identifiers() {
    let mut dag = DAG::new();
    let a = dag.add_node("a", vec![]);
    let b = dag.add_node("b", vec![a]);
    assert_ne!(a, b);
    assert_eq!(dag.nodes[1].id, b);
    assert_eq!(dag.nodes[1].depends_on, vec![a]);
    assert_eq!(dag.nodes[1].step_type, "b");
    assert_ne!(DAG::default().id, dag.id);
    let copy = dag.clone();
    assert_eq!(copy.id, dag.id);
    assert_eq!(copy.nodes.len(), 2);
}

fn dag_node(id: u128, status: NodeStatus) -> DAGNode {
    DAGNode { id, step_type: format!("n{}", id), depends_on: vec![], status }
}

#[test]
fn statuses_are_restored_by_identifier() {
    let at = Timestamp { secs: 0, nanos: 0 };
    let mut dag = DAG::with_id(1, at);
    dag.nodes.push(dag_node(1, NodeStatus::Pending));
    dag.nodes.push(dag_node(2, NodeStatus::Failed));
    dag.nodes.push(dag_node(3, NodeStatus::Pending));
    let mut saved = DAG::with_id(2, at);
    saved.nodes.push(dag_node(3, NodeStatus::Yielded));
    saved.nodes.push(dag_node(1, NodeStatus::Running));
    saved.nodes.push(dag_node(1, NodeStatus::Done));
    saved.nodes.push(dag_node(9, NodeStatus::Done));
    dag.restore_statuses(&saved);
    let statuses: Vec<NodeStatus> = dag.nodes.iter().map(|n| n.status).collect();
    assert_eq!(statuses, vec![NodeStatus::Done, NodeStatus::Failed, NodeStatus::Yielded]);
    assert_eq!(dag.id, 1);
    let snapshot = dag.clone();
    dag.restore_statuses(&snapshot);
    let again: Vec<NodeStatus> = dag.nodes.iter().map(|n| n.status).collect();
    assert_eq!(again, statuses);
}

// ── Claims ──────────────────────────────────────────────────────────────────

fn latest(status: CheckpointStatus, request: PendingRequest, claimed: Option<&str>) -> Option<LatestCheckpoint> {
    Some(LatestCheckpoint {
        status,
        shown_status: quoted_status(status.name()),
        request,
        claimed_interrupt: claimed.map(|c| c.to_string()),
    })
}

#[test]
fn claims_are_decided_from_the_store() {
    let wants = |l: &Option<LatestCheckpoint>, resolved: bool| match decide_claim("t", "i", resolved, l) {
        Ok(result) => Ok(result),
        Err(error) => Err(error.message()),
    };
    let interrupt = |id: &str| PendingRequest::Interrupt(id.to_string());
    assert_eq!(wants(&None, false), Err("Nothing to resume for thread 't'".to_string()));
    assert_eq!(wants(&None, true), Ok(ClaimResult::AlreadyCompleted));
    let yielded = latest(CheckpointStatus::Yielded, interrupt("i"), None);
    assert_eq!(wants(&yielded, false), Ok(ClaimResult::Claimed));
    assert_eq!(wants(&yielded, true), Ok(ClaimResult::AlreadyCompleted));
    let other = latest(CheckpointStatus::Yielded, interrupt("j"), None);
    assert_eq!(
        wants(&other, false),
        Err("Invalid resume: Expected interrupt_id 'j', got 'i'".to_string())
    );
    let bare = latest(CheckpointStatus::Yielded, PendingRequest::Absent, None);
    assert_eq!(
        wants(&bare, false),
        Err("Nothing to resume for thread 'Thread 't' has Yielded status but no yield_request metadata'".to_string())
    );
    let broken = latest(CheckpointStatus::Yielded, PendingRequest::Unreadable("bad json".into()), None);
    assert_eq!(wants(&broken, false), Err("Deserialization error: bad json".to_string()));
    let mine = latest(CheckpointStatus::Running, interrupt("i"), Some("i"));
    assert_eq!(wants(&mine, false), Ok(ClaimResult::InProgress));
    let theirs = latest(CheckpointStatus::Running, interrupt("i"), Some("j"));
    assert_eq!(
        wants(&theirs, false),
        Err("Execution error: Resume claim failed: thread 't' is already running with claimed_interrupt 'j'".to_string())
    );
    let nobodys = latest(CheckpointStatus::Running, interrupt("i"), None);
    assert_eq!(
        wants(&nobodys, false),
        Err("Execution error: Resume claim failed: thread 't' is already running with claimed_interrupt 'none'".to_string())
    );
    for status in [CheckpointStatus::Complete, CheckpointStatus::Failed, CheckpointStatus::Interrupted] {
        let done = latest(status, interrupt("i"), Some("i"));
        assert_eq!(
            wants(&done, false),
            Err(format!(
                "Nothing to resume for thread 'Thread 't' latest checkpoint status is '{}', expected Yielded'",
                status.name()
            ))
        );
    }
}

#[test]
fn a_claim_holds_where_one_row_changed() {
    assert_eq!(settle_claim("t", 1).unwrap(), ClaimResult::Claimed);
    for rows in [0, 2] {
        assert_eq!(
            settle_claim("t", rows).unwrap_err().message(),
            "Execution error: Concurrent resume claim failed for thread 't'"
        );
    }
}

// ── Rows ────────────────────────────────────────────────────────────────────

#[test]
fn statuses_keep_their_names() {
    let statuses = [
        (CheckpointStatus::Complete, "Complete"),
        (CheckpointStatus::Running, "Running"),
        (CheckpointStatus::Yielded, "Yielded"),
        (CheckpointStatus::Failed, "Failed"),
        (CheckpointStatus::Interrupted, "Interrupted"),
    ];
    for (status, name) in statuses {
        assert_eq!(status.name(), name);
        assert_eq!(parse_status(name), status);
        assert_eq!(parse_checkpoint_status(name), status);
    }
    assert_eq!(parse_status("complete"), CheckpointStatus::Complete);
    assert_eq!(parse_status("Paused"), CheckpointStatus::Complete);
    assert_eq!(parse_checkpoint_status(""), CheckpointStatus::Complete);
}

fn row(status: &str) -> CheckpointRow {
    CheckpointRow {
        id: "cp".into(),
        next_node: "B".into(),
        status: status.into(),
        claimed_interrupt: Some("i".into()),
        resolved_interrupt: None,
    }
}

#[test]
fn rows_become_checkpoints() {
    let at = Timestamp { secs: 9, nanos: 1 };
    let request = YieldRequest::simple("go on?");
    let (state, meta, dag) =
        read_checkpoint(row("Yielded"), "t", at, Ok(7), Ok(Some(DAG::new())), Ok(Some(request))).unwrap();
    assert_eq!(state, 7);
    assert!(dag.is_some());
    assert_eq!(meta.checkpoint_id, "cp");
    assert_eq!(meta.thread_id, "t");
    assert_eq!(meta.next_node, "B");
    assert_eq!(meta.status, CheckpointStatus::Yielded);
    assert_eq!(meta.created_at, at);
    assert_eq!(meta.yield_request.unwrap().message, "go on?");
    assert_eq!(meta.claimed_interrupt.as_deref(), Some("i"));
    assert!(meta.resolved_interrupt.is_none());
    assert!(meta.graph_version.is_none() && meta.state_schema_version.is_none());
    let bad = |state: Result<i32, String>, dag: Result<Option<DAG>, String>| {
        read_checkpoint(row("x"), "t", at, state, dag, Err("request".into())).unwrap_err().message()
    };
    assert_eq!(bad(Err("state".into()), Err("dag".into())), "Deserialization error: state");
    assert_eq!(bad(Ok(1), Err("dag".into())), "Deserialization error: dag");
    assert_eq!(bad(Ok(1), Ok(None)), "Deserialization error: request");
    assert_eq!(read_meta(row("Failed"), "t", at, Ok(None)).unwrap().status, CheckpointStatus::Failed);
    assert!(read_meta(row("Failed"), "t", at, Err("bad".into())).is_err());
}

#[test]
fn pruning_is_planned_from_the_policy() {
    let now = Timestamp { secs: 1000, nanos: 0 };
    assert!(matches!(plan_pruning(RetentionPolicy::KeepAll, now), Ok(Pruning::Nothing)));
    assert!(matches!(plan_pruning(RetentionPolicy::KeepLast(3), now), Ok(Pruning::AllButNewest(3))));
    let minute = RetentionPolicy::OlderThan(TimeSpan { secs: 60, nanos: 0 });
    match plan_pruning(minute, now) {
        Ok(Pruning::CreatedBefore(at)) => assert_eq!(at, Timestamp { secs: 940, nanos: 0 }),
        other => panic!("{:?}", other),
    }
    let longest = TimeSpan { secs: 9_223_372_036_854_775, nanos: 807_000_001 };
    let error = plan_pruning(RetentionPolicy::OlderThan(longest), now).unwrap_err();
    assert_eq!(
        error.message(),
        "Checkpoint failure: Source duration value is out of range for the target type"
    );
    assert!(can_plan(minute, now));
    assert!(can_plan(RetentionPolicy::OlderThan(longest), now));
    assert!(!can_plan(RetentionPolicy::OlderThan(TimeSpan { secs: 9_000_000_000_000, nanos: 0 }), now));
}

// ── Graph configuration ─────────────────────────────────────────────────────

type Plain = Graph<&'static str, &'static str, fn(&u32) -> String>;

fn even_or_odd(n: &u32) -> String {
    if n % 2 == 0 {
        "even".to_string()
    } else {
        "odd".to_string()
    }
}

#[test]
fn graphs_start_with_defaults() {
    let graph = Plain::new();
    assert_eq!(graph.budget(), None);
    assert_eq!(graph.crash_policy(), CrashRecoveryPolicy::ResetToPending);
    assert_eq!(graph.wave_policy(), WaveFailurePolicy::FailFast);
    let limits = graph.limits();
    assert_eq!(limits.max_concurrent_nodes, 64);
    assert_eq!(limits.max_execution_records, 10_000);
    assert_eq!(limits.max_checkpoint_bytes, 10 * 1024 * 1024);
    assert_eq!(limits.max_dag_nodes, 10_000);
    assert_eq!(limits.max_sequential_steps, 1_000);
    assert_eq!(graph.effective_config("A"), (RetryPolicy::default(), None, None));
    assert!(!graph.is_registered("A"));
    assert_eq!(graph.route("A", &1), "__END__");
}

#[test]
fn graphs_are_configured_by_their_builder() {
    let quick = RetryPolicy { max_attempts: 1, ..RetryPolicy::default() };
    let patient = RetryPolicy { max_attempts: 9, ..RetryPolicy::default() };
    let config = NodeConfig {
        retry_policy: Some(patient),
        timeout: Some(TimeSpan::from_millis(50)),
        budget_eur: Some(eur(0.5)),
    };
    let condition: fn(&u32) -> String = even_or_odd;
    let graph = Plain::builder()
        .node("A", "node a")
        .node_with_config("B", "node b", config)
        .dynamic_node("D", "dynamic d")
        .edge("A", "B")
        .conditional_edge("B", condition)
        .retry_policy(quick)
        .budget_eur(eur(10.0))
        .crash_recovery_policy(CrashRecoveryPolicy::SkipAndContinue)
        .wave_failure_policy(WaveFailurePolicy::ContinueOnError)
        .interrupt_before("B")
        .interrupt_after("A")
        .resource_limits(ResourceLimits::default().with_max_checkpoint_bytes(10))
        .build();
    assert_eq!(graph.node("A"), Some(&"node a"));
    assert_eq!(graph.node("D"), None);
    assert_eq!(graph.dynamic_node("D"), Some(&"dynamic d"));
    assert!(graph.is_dynamic("D") && !graph.is_dynamic("A"));
    assert!(graph.is_registered("A") && graph.is_registered("D") && !graph.is_registered("X"));
    assert_eq!(graph.effective_config("A"), (quick, None, None));
    assert_eq!(graph.effective_config("B"), (patient, Some(TimeSpan::from_millis(50)), Some(eur(0.5))));
    assert_eq!(graph.budget(), Some(eur(10.0)));
    assert_eq!(graph.crash_policy(), CrashRecoveryPolicy::SkipAndContinue);
    assert_eq!(graph.wave_policy(), WaveFailurePolicy::ContinueOnError);
    assert!(graph.interrupts_before("B") && !graph.interrupts_before("A"));
    assert!(graph.interrupts_after("A") && !graph.interrupts_after("B"));
    assert_eq!(graph.route("A", &1), "B");
    assert_eq!(graph.route("B", &1), "odd");
    assert_eq!(graph.route("B", &2), "even");
    assert_eq!(graph.edge_target("B", &2), Some("even".to_string()));
    assert_eq!(graph.edge_target("D", &2), None);
    assert!(graph.check_checkpoint_size(10).is_ok());
    assert_eq!(
        graph.check_checkpoint_size(11).unwrap_err().message(),
        "Execution error: Checkpoint payload 11 bytes exceeds max_checkpoint_bytes limit of 10"
    );
}

#[test]
fn limits_are_set_one_by_one() {
    let limits = ResourceLimits::default()
        .with_max_concurrent_nodes(0)
        .with_max_execution_records(2)
        .with_max_dag_nodes(3)
        .with_max_sequential_steps(4);
    assert_eq!(limits.max_execution_records, 2);
    assert_eq!(limits.max_dag_nodes, 3);
    assert_eq!(limits.max_sequential_steps, 4);
    assert_eq!(limits.max_checkpoint_bytes, 10 * 1024 * 1024);
    // A wave always makes progress.
    assert_eq!(limits.wave_permits(), 1);
    assert_eq!(limits.with_max_concurrent_nodes(2).wave_permits(), 2);
}

#[test]
fn event_numbers_grow_by_one() {
    let mut events = EventSequence::new();
    assert_eq!(events.next_seq(), 0);
    assert_eq!(events.next_seq(), 1);
    let mut last = EventSequence { next: u64::MAX };
    assert_eq!(last.next_seq(), u64::MAX);
    assert_eq!(last.next_seq(), 0);
}

#[test]
fn outputs_carry_state_event_and_meta() {
    let output = NodeOutput::bare(1).with_event("review");
    assert_eq!(output.state, 1);
    assert_eq!(output.event.as_deref(), Some("review"));
    assert!(output.meta.cost_eur.is_none());
    let output = NodeOutput::with_llm(2, 100, 50, "model", eur(0.25));
    assert_eq!(output.meta.tokens_in, Some(100));
    assert_eq!(output.meta.tokens_out, Some(50));
    assert_eq!(output.meta.cost_eur, Some(eur(0.25)));
    assert_eq!(output.meta.clone().model.as_deref(), Some("model"));
    assert!(NodeMeta::default().model.is_none());
    let node = FnNode::new(|x: u32| x + 1);
    assert_eq!((node.function())(1), 2);
    let node = DynamicFnNode::new(|x: u32| x + 2);
    assert_eq!((node.function())(1), 3);
}

// ── Dynamic nodes ───────────────────────────────────────────────────────────

#[test]
fn children_are_found_by_name() {
    let mut runner = ChildRunner::new();
    runner.add_child("child", "child node");
    assert_eq!(*runner.find_child("child").unwrap(), "child node");
    assert_eq!(
        runner.find_child("nobody").unwrap_err().message(),
        "Fatal error: Child node 'nobody' not found in graph"
    );
}

#[test]
fn children_inherit_their_context() {
    let parent = NodeContext::new(
        "t".into(),
        "parent".into(),
        2,
        Some("cp".into()),
        Some(eur(3.0)),
        None,
        Some(text("input")),
    );
    let child = child_context(&parent, "child", None);
    assert_eq!(child.thread_id, "t");
    assert_eq!(child.node_name, "child");
    assert_eq!(child.attempt, 0);
    assert_eq!(child.last_checkpoint_id.as_deref(), Some("cp"));
    assert_eq!(child.budget_remaining_eur, Some(eur(3.0)));
    assert!(child.resumed_input.is_none());
    assert_ne!(child.execution_id, parent.execution_id);
}

#[test]
fn children_cannot_yield() {
    let yielded: Result<NodeOutput<u32>, GraphError> = Err(GraphError::Yield(YieldRequest::new("gate", "?")));
    match child_outcome(yielded) {
        Err(GraphError::YieldInDynamicNode { interrupt_id }) => assert_eq!(interrupt_id, "gate"),
        other => panic!("{:?}", other),
    }
    let failed: Result<NodeOutput<u32>, GraphError> = Err(GraphError::Retryable("slow".into()));
    assert!(matches!(child_outcome(failed), Err(GraphError::Retryable(reason)) if reason == "slow"));
    assert_eq!(child_state(Ok(NodeOutput::bare(5))).unwrap(), 5);
    let yielded: Result<NodeOutput<u32>, GraphError> = Err(GraphError::Yield(YieldRequest::simple("gate")));
    assert!(matches!(child_state(yielded), Err(GraphError::YieldInDynamicNode { .. })));
}

// ── Spans and history ───────────────────────────────────────────────────────

#[test]
fn spans_are_logged_by_status() {
    let span = |status: SpanStatus| SpanContext {
        thread_id: "t".into(),
        node_name: "A".into(),
        checkpoint_id: None,
        attempt: 0,
        duration_ms: 0,
        cost_eur: None,
        status,
        dag_id: None,
        error: Some(SpanError::Text("x".into())),
        meta: NodeMeta::default(),
    };
    let logged = |status: SpanStatus| (TracingEmitter.level(&span(status)), TracingEmitter.message(&span(status)));
    assert_eq!(logged(SpanStatus::Success), (LogLevel::Info, "Node completed successfully"));
    assert_eq!(logged(SpanStatus::Retrying), (LogLevel::Warn, "Node retrying"));
    assert_eq!(logged(SpanStatus::Error), (LogLevel::Warn, "Node failed"));
    assert_eq!(logged(SpanStatus::Cancelled), (LogLevel::Warn, "Node cancelled"));
}

fn record(name: &str) -> ExecutionRecord {
    ExecutionRecord {
        node_name: name.into(),
        started_at: Timestamp { secs: 0, nanos: 0 },
        duration_ms: 0,
        status: "success".into(),
        cost_eur: None,
        checkpoint_id: None,
        attempts: 0,
        actor: None,
        response_hash: None,
    }
}

#[test]
fn history_keeps_the_newest_records() {
    let mut history = ExecutionHistory::new();
    for name in ["a", "b", "c", "d"] {
        history.record(record(name), 3);
    }
    let names: Vec<String> = history.execution_history().into_iter().map(|r| r.node_name).collect();
    assert_eq!(names, vec!["b", "c", "d"]);
    history.record(record("e"), 1);
    let names: Vec<String> = history.execution_history().into_iter().map(|r| r.node_name).collect();
    assert_eq!(names, vec!["e"]);
    history.record(record("f"), 0);
    assert!(history.execution_history().is_empty());
}
