//! Typed runtime for durable graph and DAG based agent workflows.
//!
//! This crate is the engine without the machinery around it: it decides what a
//! run does next, and leaves it to its surroundings to call nodes, to wait, to
//! save checkpoints and to publish what happened.
//!
//! - [`graph`] holds the registry of nodes, their edges and the rules of a run.
//! - [`sequential`] runs one node after the other, [`waves`] runs a [`dag`] in
//!   parallel waves, [`tasks`] calls the nodes of a wave.
//! - [`resume`] picks up what was saved: after a pause, after a crash, or with
//!   the input that a yielded node waits for.
//! - [`store`] keeps checkpoints, [`checkpoint`] decides who may resume them.
//!
//! What each phase owes is stated and proved in [`step_laws`], [`wave_step_laws`]
//! and [`plan_laws`], what holds across several operations in [`sequential_laws`],
//! [`wave_laws`], [`dag_laws`], [`resume_laws`], [`execution_laws`], [`acyclic`] and
//! [`store::laws`], and beside the functions it is about.
pub mod acyclic;
pub mod checkpoint;
pub mod checkpoint_meta;
pub mod clock;
pub mod context;
pub mod dag;
pub mod dag_laws;
pub mod dynamic;
pub mod effects;
pub mod emitter;
pub mod error;
pub mod execution_laws;
pub mod graph;
pub mod history;
pub mod hitl;
pub mod identity;
pub mod json;
pub mod merge;
pub mod metrics;
pub mod money;
pub mod plan_laws;
pub mod readiness;
pub mod resource_limits;
pub mod resume;
pub mod resume_laws;
pub mod retry;
pub mod schedule;
pub mod schema;
pub mod sequential;
pub mod sequential_laws;
pub mod step_laws;
pub mod store;
pub mod tasks;
pub mod text;
pub mod wave_laws;
pub mod wave_step_laws;
pub mod waves;

pub use checkpoint::{ClaimResult, SaveRequest};
pub use checkpoint_meta::{CheckpointMeta, CheckpointStatus, CrashRecoveryPolicy, RetentionPolicy};
pub use clock::{TimeSpan, Timestamp};
pub use context::NodeContext;
pub use dag::{DAGBuilder, DAGNode, NodeStatus, DAG};
pub use dynamic::{ChildRunner, DynamicFnNode};
pub use emitter::{NoopEmitter, SpanContext, SpanStatus, TracingEmitter};
pub use error::{GraphError, TakelnError};
pub use graph::{
    Edge, FnNode, Graph, GraphBuilder, GraphEvent, NodeConfig, NodeMeta, NodeOutput, State,
    WaveFailurePolicy,
};
pub use history::ExecutionRecord;
pub use hitl::{ResumeContext, ResumeMode, ResumeRecord, YieldRequest};
pub use json::{JsonNumber, JsonValue};
pub use merge::Merge;
pub use metrics::NoopMetricsHook;
pub use money::Eur;
pub use resource_limits::ResourceLimits;
pub use retry::RetryPolicy;
pub use store::memory::InMemoryCheckpointer;
