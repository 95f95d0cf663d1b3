//! What a run asks its surroundings to do, besides calling nodes and saving
//! checkpoints: publish events, emit spans, report metrics, keep records.
use crate::clock::Timestamp;
use crate::emitter::{
    copy_span_error, span_error_option, SpanContext, SpanContextView, SpanError, SpanErrorView,
    SpanStatus,
};
use crate::graph::{GraphEvent, GraphEventView, NodeMeta, NodeMetaView};
use crate::history::{ExecutionRecord, ExecutionRecordView};
use crate::hitl::copy_text;
use crate::money::Eur;
use crate::text::text_option;
use vstd::prelude::*;
use vstd::string::*;

verus! {

/// One thing to do; a run lists them in the order in which they are to happen.
#[derive(Debug)]
#[allow(inconsistent_fields)]
pub enum Effect {
    /// Publish an event.
    Event(GraphEvent),
    /// Emit a span.
    Span(SpanContext),
    /// Report that a node completed.
    NodeComplete { node_name: String, duration_ms: u64, status: SpanStatus },
    /// Report that a run completed.
    GraphComplete { thread_id: String, total_cost: Eur, total_duration_ms: u64 },
    /// Report that a checkpoint was saved.
    CheckpointSaved { thread_id: String, checkpoint_id: String },
    /// Add a record to the execution history.
    Record(ExecutionRecord),
}

/// The contents of an [`Effect`].
#[allow(inconsistent_fields)]
pub enum EffectView {
    Event(GraphEventView),
    Span(SpanContextView),
    NodeComplete { node_name: Seq<char>, duration_ms: u64, status: SpanStatus },
    GraphComplete { thread_id: Seq<char>, total_cost: Eur, total_duration_ms: u64 },
    CheckpointSaved { thread_id: Seq<char>, checkpoint_id: Seq<char> },
    Record(ExecutionRecordView),
}

impl View for Effect {
    type V = EffectView;

    open spec fn view(&self) -> EffectView {
        match self {
            Effect::Event(event) => EffectView::Event(event@),
            Effect::Span(span) => EffectView::Span(span@),
            Effect::NodeComplete { node_name, duration_ms, status } => EffectView::NodeComplete {
                node_name: node_name@,
                duration_ms: *duration_ms,
                status: *status,
            },
            Effect::GraphComplete { thread_id, total_cost, total_duration_ms }
                => EffectView::GraphComplete {
                thread_id: thread_id@,
                total_cost: *total_cost,
                total_duration_ms: *total_duration_ms,
            },
            Effect::CheckpointSaved { thread_id, checkpoint_id } => EffectView::CheckpointSaved {
                thread_id: thread_id@,
                checkpoint_id: checkpoint_id@,
            },
            Effect::Record(record) => EffectView::Record(record@),
        }
    }
}

/// The contents of a list of effects.
pub open spec fn effect_list(effects: Seq<Effect>) -> Seq<EffectView> {
    effects.map_values(|e: Effect| e@)
}

/// What is known of one execution of a node, to be reported.
#[derive(Debug)]
pub struct NodeReport {
    pub thread_id: String,
    pub node_name: String,
    /// The DAG that the node was executed in, if any.
    pub dag_id: Option<String>,
    pub attempt: u8,
    pub started_at: Timestamp,
    pub duration_ms: u64,
    pub cost_eur: Option<Eur>,
    pub status: SpanStatus,
    pub error: Option<SpanError>,
    pub meta: NodeMeta,
}

/// The contents of a [`NodeReport`].
pub struct NodeReportView {
    pub thread_id: Seq<char>,
    pub node_name: Seq<char>,
    pub dag_id: Option<Seq<char>>,
    pub attempt: u8,
    pub started_at: Timestamp,
    pub duration_ms: u64,
    pub cost_eur: Option<Eur>,
    pub status: SpanStatus,
    pub error: Option<SpanErrorView>,
    pub meta: NodeMetaView,
}

impl View for NodeReport {
    type V = NodeReportView;

    open spec fn view(&self) -> NodeReportView {
        NodeReportView {
            thread_id: self.thread_id@,
            node_name: self.node_name@,
            dag_id: text_option(self.dag_id),
            attempt: self.attempt,
            started_at: self.started_at,
            duration_ms: self.duration_ms,
            cost_eur: self.cost_eur,
            status: self.status,
            error: span_error_option(self.error),
            meta: self.meta@,
        }
    }
}

/// The contents of a list of reports.
pub open spec fn report_list(reports: Seq<NodeReport>) -> Seq<NodeReportView> {
    reports.map_values(|r: NodeReport| r@)
}

/// The span of a report, for a step that was saved under `checkpoint`.
pub open spec fn report_span(report: NodeReportView, checkpoint: Option<Seq<char>>) -> EffectView {
    EffectView::Span(
        SpanContextView {
            thread_id: report.thread_id,
            node_name: report.node_name,
            checkpoint_id: checkpoint,
            attempt: report.attempt,
            duration_ms: report.duration_ms,
            cost_eur: report.cost_eur,
            status: report.status,
            dag_id: report.dag_id,
            error: report.error,
            meta: report.meta,
        },
    )
}

/// The record of a report, for a step that was saved under `checkpoint`.
pub open spec fn report_record(
    report: NodeReportView,
    checkpoint: Option<Seq<char>>,
) -> EffectView {
    EffectView::Record(
        ExecutionRecordView {
            node_name: report.node_name,
            started_at: report.started_at,
            duration_ms: report.duration_ms,
            status: "success"@,
            cost_eur: report.cost_eur,
            checkpoint_id: checkpoint,
            attempts: report.attempt,
            actor: None,
            response_hash: None,
        },
    )
}

/// How a report is made known: by a span in any case; a node that succeeded or
/// failed completed, which the metrics are told; one that succeeded is recorded.
pub open spec fn reported(report: NodeReportView, checkpoint: Option<Seq<char>>) -> Seq<
    EffectView,
> {
    let span = report_span(report, checkpoint);
    let complete = EffectView::NodeComplete {
        node_name: report.node_name,
        duration_ms: report.duration_ms,
        status: report.status,
    };
    match report.status {
        SpanStatus::Success => seq![span, complete, report_record(report, checkpoint)],
        SpanStatus::Error => seq![span, complete],
        _ => seq![span],
    }
}

/// How reports are made known, one after the other.
pub open spec fn all_reported(
    reports: Seq<NodeReportView>,
    checkpoint: Option<Seq<char>>,
) -> Seq<EffectView>
    decreases reports.len(),
{
    if reports.len() == 0 {
        Seq::empty()
    } else {
        all_reported(reports.drop_last(), checkpoint) + reported(reports.last(), checkpoint)
    }
}

/// Adds what makes a report known.
pub(crate) fn add_report(
    effects: &mut Vec<Effect>,
    report: &NodeReport,
    checkpoint: &Option<String>,
)
    ensures
        effect_list(final(effects)@) == effect_list(old(effects)@) + reported(
            report@,
            text_option(*checkpoint),
        ),
{
    let ghost before = effect_list(effects@);
    add_effect(
        effects,
        Effect::Span(
            SpanContext {
                thread_id: report.thread_id.clone(),
                node_name: report.node_name.clone(),
                checkpoint_id: copy_text(checkpoint),
                attempt: report.attempt,
                duration_ms: report.duration_ms,
                cost_eur: report.cost_eur,
                status: report.status,
                dag_id: copy_text(&report.dag_id),
                error: copy_span_error(&report.error),
                meta: report.meta.clone(),
            },
        ),
    );
    match report.status {
        SpanStatus::Success | SpanStatus::Error => {
            add_effect(
                effects,
                Effect::NodeComplete {
                    node_name: report.node_name.clone(),
                    duration_ms: report.duration_ms,
                    status: report.status,
                },
            );
        },
        _ => {},
    }
    match report.status {
        SpanStatus::Success => {
            add_effect(
                effects,
                Effect::Record(
                    ExecutionRecord {
                        node_name: report.node_name.clone(),
                        started_at: report.started_at,
                        duration_ms: report.duration_ms,
                        status: "success".to_owned(),
                        cost_eur: report.cost_eur,
                        checkpoint_id: copy_text(checkpoint),
                        attempts: report.attempt,
                        actor: None,
                        response_hash: None,
                    },
                ),
            );
        },
        _ => {},
    }
    assert(effect_list(effects@) =~= before + reported(report@, text_option(*checkpoint)));
}

/// Adds what makes reports known, one after the other.
pub(crate) fn add_reports(
    effects: &mut Vec<Effect>,
    reports: &Vec<NodeReport>,
    checkpoint: &Option<String>,
)
    ensures
        effect_list(final(effects)@) == effect_list(old(effects)@) + all_reported(
            report_list(reports@),
            text_option(*checkpoint),
        ),
{
    let ghost before = effect_list(effects@);
    let ghost views = report_list(reports@);
    let ghost id = text_option(*checkpoint);
    let mut k: usize = 0;
    assert(before + all_reported(views.take(0), id) =~= before);
    while k < reports.len()
        invariant
            k <= reports@.len(),
            views == report_list(reports@),
            id == text_option(*checkpoint),
            effect_list(effects@) == before + all_reported(views.take(k as int), id),
        decreases reports.len() - k,
    {
        add_report(effects, &reports[k], checkpoint);
        proof {
            let more = views.take(k + 1);
            assert(more.drop_last() =~= views.take(k as int));
            assert(more.last() == reports@[k as int]@);
            assert(effect_list(effects@) =~= before + all_reported(more, id));
        }
        k = k + 1;
    }
    assert(views.take(views.len() as int) =~= views);
}

/// The effects that make reports known.
pub(crate) fn report_effects(reports: &Vec<NodeReport>, checkpoint: &Option<String>) -> (effects:
    Vec<Effect>)
    ensures
        effect_list(effects@) == all_reported(report_list(reports@), text_option(*checkpoint)),
{
    let mut effects = no_effects();
    add_reports(&mut effects, reports, checkpoint);
    assert(effect_list(effects@) =~= all_reported(
        report_list(reports@),
        text_option(*checkpoint),
    ));
    effects
}

/// The effect of a checkpoint that was saved.
pub open spec fn checkpoint_saved(thread_id: Seq<char>, checkpoint_id: Seq<char>) -> EffectView {
    EffectView::CheckpointSaved { thread_id, checkpoint_id }
}

pub(crate) fn saved_effect(thread_id: &str, checkpoint_id: &str) -> (effect: Effect)
    ensures
        effect@ == checkpoint_saved(thread_id@, checkpoint_id@),
{
    Effect::CheckpointSaved {
        thread_id: thread_id.to_owned(),
        checkpoint_id: checkpoint_id.to_owned(),
    }
}

/// The effect of a run that came to its end. How long a run took is not
/// measured.
pub open spec fn graph_complete(thread_id: Seq<char>, total_cost: Eur) -> EffectView {
    EffectView::GraphComplete { thread_id, total_cost, total_duration_ms: 0 }
}

pub(crate) fn complete_effect(thread_id: &str, total_cost: Eur) -> (effect: Effect)
    ensures
        effect@ == graph_complete(thread_id@, total_cost),
{
    Effect::GraphComplete { thread_id: thread_id.to_owned(), total_cost, total_duration_ms: 0 }
}

/// The event that a node started.
pub open spec fn node_started(
    thread_id: Seq<char>,
    node_name: Seq<char>,
    started_at: Timestamp,
    sequence_number: u64,
) -> EffectView {
    EffectView::Event(
        GraphEventView::NodeStarted { thread_id, node_name, started_at, sequence_number },
    )
}

pub(crate) fn started_effect(
    thread_id: &str,
    node_name: &str,
    started_at: Timestamp,
    sequence_number: u64,
) -> (effect: Effect)
    ensures
        effect@ == node_started(thread_id@, node_name@, started_at, sequence_number),
{
    Effect::Event(
        GraphEvent::NodeStarted {
            thread_id: thread_id.to_owned(),
            node_name: node_name.to_owned(),
            started_at,
            sequence_number,
        },
    )
}

/// The event that a node finished.
pub open spec fn node_finished(
    thread_id: Seq<char>,
    node_name: Seq<char>,
    duration_ms: u64,
    status: Seq<char>,
    cost: Option<Eur>,
    sequence_number: u64,
) -> EffectView {
    EffectView::Event(
        GraphEventView::NodeFinished {
            thread_id,
            node_name,
            duration_ms,
            status,
            cost,
            sequence_number,
        },
    )
}

pub(crate) fn finished_effect(
    thread_id: &str,
    node_name: &str,
    duration_ms: u64,
    status: &str,
    cost: Option<Eur>,
    sequence_number: u64,
) -> (effect: Effect)
    ensures
        effect@ == node_finished(
            thread_id@,
            node_name@,
            duration_ms,
            status@,
            cost,
            sequence_number,
        ),
{
    Effect::Event(
        GraphEvent::NodeFinished {
            thread_id: thread_id.to_owned(),
            node_name: node_name.to_owned(),
            duration_ms,
            status: status.to_owned(),
            cost,
            sequence_number,
        },
    )
}

/// The effect of a checkpoint, where one was saved.
pub open spec fn saved_first(
    thread_id: Seq<char>,
    checkpoint: Option<Seq<char>>,
) -> Seq<EffectView> {
    match checkpoint {
        Some(id) => seq![checkpoint_saved(thread_id, id)],
        None => Seq::empty(),
    }
}

/// How the end of a node is made known: its checkpoint, where one was saved,
/// its report and the event that it finished.
pub open spec fn step_reported(
    report: NodeReportView,
    checkpoint: Option<Seq<char>>,
    outcome: Seq<char>,
    cost: Option<Eur>,
    sequence_number: u64,
) -> Seq<EffectView> {
    saved_first(report.thread_id, checkpoint) + reported(report, checkpoint) + seq![
        node_finished(
            report.thread_id,
            report.node_name,
            report.duration_ms,
            outcome,
            cost,
            sequence_number,
        ),
    ]
}

/// Makes known that a checkpoint was saved, where one was.
pub(crate) fn saved_effects(thread_id: &str, checkpoint: &Option<String>) -> (effects: Vec<Effect>)
    ensures
        effect_list(effects@) == saved_first(thread_id@, text_option(*checkpoint)),
{
    match checkpoint {
        Some(id) => one_effect(saved_effect(thread_id, id.as_str())),
        None => no_effects(),
    }
}

/// Makes known how a node ended.
pub(crate) fn step_effects(
    report: &NodeReport,
    checkpoint: &Option<String>,
    outcome: &str,
    cost: Option<Eur>,
    sequence_number: u64,
) -> (effects: Vec<Effect>)
    ensures
        effect_list(effects@) == step_reported(
            report@,
            text_option(*checkpoint),
            outcome@,
            cost,
            sequence_number,
        ),
{
    let mut effects = saved_effects(report.thread_id.as_str(), checkpoint);
    add_report(&mut effects, report, checkpoint);
    add_effect(
        &mut effects,
        finished_effect(
            report.thread_id.as_str(),
            report.node_name.as_str(),
            report.duration_ms,
            outcome,
            cost,
            sequence_number,
        ),
    );
    assert(effect_list(effects@) =~= step_reported(
        report@,
        text_option(*checkpoint),
        outcome@,
        cost,
        sequence_number,
    ));
    effects
}

/// The event that a run finished.
pub open spec fn graph_finished(
    thread_id: Seq<char>,
    cost: Eur,
    sequence_number: u64,
) -> EffectView {
    EffectView::Event(GraphEventView::GraphFinished { thread_id, cost, sequence_number })
}

pub(crate) fn graph_finished_effect(
    thread_id: &str,
    cost: Eur,
    sequence_number: u64,
) -> (effect: Effect)
    ensures
        effect@ == graph_finished(thread_id@, cost, sequence_number),
{
    Effect::Event(
        GraphEvent::GraphFinished { thread_id: thread_id.to_owned(), cost, sequence_number },
    )
}

/// A list of nothing.
pub(crate) fn no_effects() -> (effects: Vec<Effect>)
    ensures
        effect_list(effects@) == Seq::<EffectView>::empty(),
{
    let effects: Vec<Effect> = Vec::new();
    assert(effect_list(effects@) =~= Seq::<EffectView>::empty());
    effects
}

/// A list of one effect.
pub(crate) fn one_effect(effect: Effect) -> (effects: Vec<Effect>)
    ensures
        effect_list(effects@) == seq![effect@],
{
    let mut effects: Vec<Effect> = Vec::new();
    effects.push(effect);
    assert(effect_list(effects@) =~= seq![effect@]);
    effects
}

/// Adds an effect to a list.
pub(crate) fn add_effect(effects: &mut Vec<Effect>, effect: Effect)
    ensures
        effect_list(final(effects)@) == effect_list(old(effects)@).push(effect@),
{
    let ghost before = effect_list(effects@);
    effects.push(effect);
    assert(effect_list(effects@) =~= before.push(effect@));
}

} // verus!
