//! Metrics of graph execution.
use vstd::prelude::*;

verus! {

/// Default no-op metrics hook that discards all metrics.
#[derive(Debug, Clone, Copy)]
pub struct NoopMetricsHook;

} // verus!
