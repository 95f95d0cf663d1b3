//! Resource limits for graph execution.
use vstd::prelude::*;

verus! {

/// Configurable resource boundaries for graph execution.
///
/// Hard limits on concurrency, memory usage, and cardinality keep a run from
/// consuming unbounded resources.
///
/// # Defaults
///
/// - 64 concurrent DAG nodes
/// - 10,000 execution history records
/// - 10 MB max checkpoint payload
/// - 10,000 max DAG nodes
/// - 1,000 sequential steps
#[derive(Debug, Clone, Copy)]
pub struct ResourceLimits {
    /// Maximum concurrent nodes in a DAG wave (default: 64).
    pub max_concurrent_nodes: usize,
    /// Maximum execution history records retained in memory (default: 10,000).
    pub max_execution_records: usize,
    /// Maximum checkpoint payload size in bytes (default: 10 MB).
    pub max_checkpoint_bytes: usize,
    /// Maximum DAG nodes allowed (default: 10,000).
    pub max_dag_nodes: usize,
    /// Maximum steps of one sequential run (default: 1,000).
    pub max_sequential_steps: usize,
}

impl Default for ResourceLimits {
    fn default() -> (limits: Self)
        ensures
            limits.max_concurrent_nodes == 64,
            limits.max_execution_records == 10_000,
            limits.max_checkpoint_bytes == 10 * 1024 * 1024,
            limits.max_dag_nodes == 10_000,
            limits.max_sequential_steps == 1_000,
    {
        Self {
            max_concurrent_nodes: 64,
            max_execution_records: 10_000,
            max_checkpoint_bytes: 10 * 1024 * 1024,
            max_dag_nodes: 10_000,
            max_sequential_steps: 1_000,
        }
    }
}

impl ResourceLimits {
    /// Set the maximum concurrent nodes in a DAG wave.
    pub fn with_max_concurrent_nodes(self, n: usize) -> (limits: Self)
        ensures
            limits == (ResourceLimits { max_concurrent_nodes: n, ..self }),
    {
        ResourceLimits { max_concurrent_nodes: n, ..self }
    }

    /// Set the maximum execution history records.
    pub fn with_max_execution_records(self, n: usize) -> (limits: Self)
        ensures
            limits == (ResourceLimits { max_execution_records: n, ..self }),
    {
        ResourceLimits { max_execution_records: n, ..self }
    }

    /// Set the maximum checkpoint payload size in bytes.
    pub fn with_max_checkpoint_bytes(self, n: usize) -> (limits: Self)
        ensures
            limits == (ResourceLimits { max_checkpoint_bytes: n, ..self }),
    {
        ResourceLimits { max_checkpoint_bytes: n, ..self }
    }

    /// Set the maximum DAG nodes allowed.
    pub fn with_max_dag_nodes(self, n: usize) -> (limits: Self)
        ensures
            limits == (ResourceLimits { max_dag_nodes: n, ..self }),
    {
        ResourceLimits { max_dag_nodes: n, ..self }
    }

    /// Set the maximum number of steps of one sequential run.
    pub fn with_max_sequential_steps(self, n: usize) -> (limits: Self)
        ensures
            limits == (ResourceLimits { max_sequential_steps: n, ..self }),
    {
        ResourceLimits { max_sequential_steps: n, ..self }
    }

    /// The number of wave nodes that may run at once: the configured maximum,
    /// but at least one, so that a wave always makes progress.
    pub fn wave_permits(&self) -> (permits: usize)
        ensures
            permits >= 1,
            self.max_concurrent_nodes >= 1 ==> permits == self.max_concurrent_nodes,
            self.max_concurrent_nodes == 0 ==> permits == 1,
    {
        if self.max_concurrent_nodes == 0 {
            1
        } else {
            self.max_concurrent_nodes
        }
    }
}

} // verus!
