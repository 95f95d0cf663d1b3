//! Structured human-in-the-loop (HITL) yield requests.
//!
//! [`YieldRequest`] is for nodes that suspend execution and wait for external
//! input; [`ResumeMode`] controls how execution resumes after the human
//! responded.
//!
//! # Security: no inline personal data
//!
//! The `message` field is meant for prompt text only. A `YieldRequest` is
//! persisted inside checkpoint metadata, which stores keep as plain text. For
//! sensitive payloads store an opaque handle with
//! [`YieldRequest::with_payload_ref`].
use crate::clock::Timestamp;
use crate::identity::{hex_bytes, hex_encode, sha256, sha256_digest};
use crate::json::{
    canonical_json, canonical_text, json_text, lemma_swapped_entries, serde_value, JsonValue,
    JsonView,
};
use crate::text::text_option;
use vstd::prelude::*;
use vstd::string::*;

verus! {

/// Controls how graph execution resumes after a yield is satisfied.
#[derive(Debug, Clone, Copy, PartialEq, Eq, Structural)]
pub enum ResumeMode {
    /// Re-execute the yielded node with the provided input at hand.
    ReEntry,
    /// Skip re-execution of the yielded node and proceed to the next node
    /// in the graph, discarding the input.
    Handoff,
}

impl Default for ResumeMode {
    fn default() -> (mode: Self)
        ensures
            mode == ResumeMode::ReEntry,
    {
        ResumeMode::ReEntry
    }
}

/// A structured request to suspend graph execution for external input.
#[derive(Debug)]
pub struct YieldRequest {
    /// Unique identifier for this interrupt point, used to match resume calls.
    pub interrupt_id: String,
    /// Human-readable message describing what input is needed.
    pub message: String,
    /// Optional JSON Schema describing the expected input shape.
    pub schema: Option<JsonValue>,
    /// How execution should resume after input is provided.
    pub resume_mode: ResumeMode,
    /// Optional opaque reference into the caller's own data store.
    pub payload_ref: Option<String>,
}

/// The contents of a [`YieldRequest`].
pub struct YieldRequestView {
    pub interrupt_id: Seq<char>,
    pub message: Seq<char>,
    pub schema: Option<JsonView>,
    pub resume_mode: ResumeMode,
    pub payload_ref: Option<Seq<char>>,
}

/// The contents of an optional JSON value.
pub open spec fn json_option(value: Option<JsonValue>) -> Option<JsonView> {
    match value {
        Some(v) => Some(v@),
        None => None,
    }
}

impl View for YieldRequest {
    type V = YieldRequestView;

    open spec fn view(&self) -> YieldRequestView {
        YieldRequestView {
            interrupt_id: self.interrupt_id@,
            message: self.message@,
            schema: json_option(self.schema),
            resume_mode: self.resume_mode,
            payload_ref: text_option(self.payload_ref),
        }
    }
}

/// The contents of an optional request.
pub open spec fn request_option(request: Option<YieldRequest>) -> Option<YieldRequestView> {
    match request {
        Some(r) => Some(r@),
        None => None,
    }
}

/// A copy of an optional JSON value.
pub(crate) fn copy_json(value: &Option<JsonValue>) -> (copy: Option<JsonValue>)
    ensures
        json_option(copy) == json_option(*value),
{
    match value {
        Some(v) => Some(v.clone()),
        None => None,
    }
}

/// A copy of an optional text.
pub(crate) fn copy_text(text: &Option<String>) -> (copy: Option<String>)
    ensures
        copy == *text,
{
    match text {
        Some(t) => Some(t.clone()),
        None => None,
    }
}

/// A copy of an optional request.
pub(crate) fn copy_request(request: &Option<YieldRequest>) -> (copy: Option<YieldRequest>)
    ensures
        request_option(copy) == request_option(*request),
{
    match request {
        Some(r) => Some(r.clone()),
        None => None,
    }
}

impl Clone for YieldRequest {
    fn clone(&self) -> (request: Self)
        ensures
            request@ == self@,
    {
        YieldRequest {
            interrupt_id: self.interrupt_id.clone(),
            message: self.message.clone(),
            schema: copy_json(&self.schema),
            resume_mode: self.resume_mode,
            payload_ref: copy_text(&self.payload_ref),
        }
    }
}

impl YieldRequest {
    /// Create a simple yield request using the message as the interrupt ID.
    pub fn simple(message: &str) -> (request: Self)
        ensures
            request@ == (YieldRequestView {
                interrupt_id: message@,
                message: message@,
                schema: None,
                resume_mode: ResumeMode::ReEntry,
                payload_ref: None,
            }),
    {
        YieldRequest::new(message, message)
    }

    /// Create a yield request with an explicit interrupt ID.
    pub fn new(interrupt_id: &str, message: &str) -> (request: Self)
        ensures
            request@ == (YieldRequestView {
                interrupt_id: interrupt_id@,
                message: message@,
                schema: None,
                resume_mode: ResumeMode::ReEntry,
                payload_ref: None,
            }),
    {
        YieldRequest {
            interrupt_id: interrupt_id.to_owned(),
            message: message.to_owned(),
            schema: None,
            resume_mode: ResumeMode::ReEntry,
            payload_ref: None,
        }
    }

    /// Attach a JSON Schema to validate the resume input against.
    pub fn with_schema(self, schema: JsonValue) -> (request: Self)
        ensures
            request == (YieldRequest { schema: Some(schema), ..self }),
    {
        YieldRequest { schema: Some(schema), ..self }
    }

    /// Set the resume mode for this yield request.
    pub fn with_resume_mode(self, mode: ResumeMode) -> (request: Self)
        ensures
            request == (YieldRequest { resume_mode: mode, ..self }),
    {
        YieldRequest { resume_mode: mode, ..self }
    }

    /// Set a payload reference handle, which keeps sensitive data out of the
    /// checkpoint.
    pub fn with_payload_ref(self, reference: &str) -> (request: Self)
        ensures
            request@ == (YieldRequestView { payload_ref: Some(reference@), ..self@ }),
    {
        YieldRequest { payload_ref: Some(reference.to_owned()), ..self }
    }

    /// The request in one line: `[interrupt] message`.
    pub fn summary(&self) -> (text: String)
        ensures
            text@ == request_summary(self@),
    {
        let mut text = String::from_str("[");
        text.append(self.interrupt_id.as_str());
        text.append("] ");
        text.append(self.message.as_str());
        text
    }
}

/// A request in one line.
pub open spec fn request_summary(request: YieldRequestView) -> Seq<char> {
    "["@ + request.interrupt_id + "] "@ + request.message
}

/// Context for resuming a yielded graph execution thread, capturing audit metadata.
#[derive(Debug)]
pub struct ResumeContext {
    /// Opaque identifier for the actor performing the resume (e.g. user ID, system service).
    pub actor: Option<String>,
    /// Additional application-specific metadata.
    pub metadata: Option<JsonValue>,
}

impl Default for ResumeContext {
    fn default() -> (context: Self)
        ensures
            context.actor is None,
            context.metadata is None,
    {
        ResumeContext { actor: None, metadata: None }
    }
}

impl Clone for ResumeContext {
    fn clone(&self) -> (context: Self)
        ensures
            context.actor == self.actor,
            json_option(context.metadata) == json_option(self.metadata),
    {
        ResumeContext { actor: copy_text(&self.actor), metadata: copy_json(&self.metadata) }
    }
}

impl ResumeContext {
    /// Create a new ResumeContext with a given actor name.
    pub fn new(actor: &str) -> (context: Self)
        ensures
            text_option(context.actor) == Some(actor@),
            context.metadata is None,
    {
        ResumeContext { actor: Some(actor.to_owned()), metadata: None }
    }

    /// Attach metadata to the resume context.
    pub fn with_metadata(self, metadata: JsonValue) -> (context: Self)
        ensures
            context == (ResumeContext { metadata: Some(metadata), ..self }),
    {
        ResumeContext { metadata: Some(metadata), ..self }
    }
}

/// Detailed record of a resume event, used for audit logging.
#[derive(Debug)]
pub struct ResumeRecord {
    /// The unique ID of the interrupt point that was resolved.
    pub interrupt_id: String,
    /// The thread ID of the graph execution.
    pub thread_id: String,
    /// The name of the node where execution was suspended.
    pub node_name: String,
    /// Opaque actor identifier who performed the resume.
    pub actor: Option<String>,
    /// When the resume occurred.
    pub resumed_at: Timestamp,
    /// SHA-256 hash of the canonicalized resume input.
    pub response_hash: String,
}

/// The hash of an input: the hexadecimal SHA-256 digest of its canonical text.
pub open spec fn response_hash(input: JsonView) -> Seq<char> {
    hex_bytes(sha256(canonical_text(input)))
}

/// Compute a canonical SHA-256 hash over the given JSON value: 64 hexadecimal
/// digits that do not depend on the order of object keys.
pub fn compute_response_hash(input: &JsonValue) -> (hash: String)
    ensures
        hash@ == response_hash(input@),
        hash@.len() == 64,
{
    let canonical = canonical_json(input);
    let digest: Vec<u8> = sha256_digest(canonical.as_str());
    hex_encode(&digest)
}

/// The hash of an object does not depend on the order of its keys: neighbouring
/// entries with different keys can change places.
pub proof fn law_hash_ignores_key_order(
    a: Vec<(String, JsonValue)>,
    b: Vec<(String, JsonValue)>,
    i: int,
)
    requires
        0 <= i < a@.len() - 1,
        b@ == a@.update(i, a@[i + 1]).update(i + 1, a@[i]),
        a@[i].0@ != a@[i + 1].0@,
    ensures
        JsonValue::Object(a)@ == JsonValue::Object(b)@,
        response_hash(JsonValue::Object(a)@) == response_hash(JsonValue::Object(b)@),
{
    lemma_swapped_entries(a, b, i, a@.len(), true);
}

/// The hash of an input is the hexadecimal digest of its JSON text, so that
/// inputs which are written alike have the same hash.
pub proof fn law_hashes_are_of_the_text(
    a: JsonValue,
    b: JsonValue,
    a_hash: String,
    b_hash: String,
)
    requires
        call_ensures(compute_response_hash, (&a,), a_hash),
        call_ensures(compute_response_hash, (&b,), b_hash),
    ensures
        a_hash@.len() == 64,
        a_hash@ == hex_bytes(sha256(json_text(serde_value(a@)))),
        a@ == b@ ==> a_hash@ == b_hash@,
{
}

} // verus!
