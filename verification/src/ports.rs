//! Port traits: what the application needs from the outside.
//!
//! Each port carries a ghost record of the calls made on it, with what was
//! handed over and what came back. Nothing is promised of the answers: the
//! record is what lets a use case state which calls it made, in which order,
//! and what it did with each answer. An implementation that is itself verified
//! keeps a record and defines the record function by it. The record functions
//! have a default, the empty record, for implementations in ordinary Rust, which
//! have no ghost code to write. No verified implementation can keep that
//! default: every call adds to the record, and the empty record never grows.
//! Each port has a record of its own; a [`crate::trace::Trace`] tells the order
//! of calls on different ports.

use crate::clock;
use crate::entities::{
    AgentConfig, AgentConfigView, AgentProfile, AgentProfileView, Knot, KnotId, KnotView, Loom, LoomId,
    LoomView, StrandPath, TieOff, TieOffPath, TieOffView,
};
use crate::errors::{PortError, PortErrorView};
use crate::events::{
    LoomEvent, LoomEventView, LoomFact, PendingEvent, PendingEventId, PendingEventOrShutdown,
    PendingEventView, RigFact, RigLogEvent, RigLogEventView,
};
use crate::rig_state::{RigState, RigStateView};
use crate::text;
use crate::text::{clone_opt, clone_texts};
use crate::time::TimeSpan;
use vstd::prelude::*;
use vstd::string::*;

pub use crate::errors::is_session_resumable;
pub use crate::events::KnotEventType;

verus! {

// ── Supporting types ───────────────────────────────────────────────────

/// Status of a knot's processing lifecycle.
#[derive(Debug, Clone, Copy, PartialEq, Eq, Structural)]
pub enum ProcessingStatus {
    /// The knot is registered but not yet processing.
    Idle,
    /// The knot is currently processing a strand.
    Processing,
    /// Processing completed successfully.
    Completed,
    /// Processing failed with an error.
    Failed,
}

/// Per-knot processing state.
#[derive(Debug, PartialEq, Eq)]
pub struct KnotState {
    /// The knot this state belongs to.
    pub knot_id: KnotId,
    /// The type of event that triggered processing.
    pub event_type: KnotEventType,
    /// Path to the strand being processed.
    pub strand_path: StrandPath,
    /// Path to the tie-off produced (if any).
    pub tie_off_path: Option<TieOffPath>,
    /// Current processing status.
    pub status: ProcessingStatus,
    /// Error message if processing failed.
    pub error: Option<String>,
    /// Timestamp of the last state update.
    pub last_updated: String,
}

/// Model of a [`KnotState`].
pub struct KnotStateView {
    pub knot_id: Seq<char>,
    pub event_type: KnotEventType,
    pub strand_path: Seq<char>,
    pub tie_off_path: Option<Seq<char>>,
    pub status: ProcessingStatus,
    pub error: Option<Seq<char>>,
    pub last_updated: Seq<char>,
}

impl View for KnotState {
    type V = KnotStateView;

    open spec fn view(&self) -> KnotStateView {
        KnotStateView {
            knot_id: self.knot_id@,
            event_type: self.event_type,
            strand_path: self.strand_path@,
            tie_off_path: text::opt_view(self.tie_off_path),
            status: self.status,
            error: text::opt_text(self.error),
            last_updated: self.last_updated@,
        }
    }
}

impl Clone for KnotState {
    fn clone(&self) -> (copy: Self)
        ensures
            copy == *self,
    {
        KnotState {
            knot_id: self.knot_id.clone(),
            event_type: self.event_type,
            strand_path: self.strand_path.clone(),
            tie_off_path: self.tie_off_path.clone(),
            status: self.status,
            error: clone_opt(&self.error),
            last_updated: self.last_updated.clone(),
        }
    }
}

/// Context passed to the agent runner when executing a knot.
#[derive(Debug, PartialEq, Eq)]
pub struct ExecutionContext {
    /// Provider, model, tools and further arguments.
    pub agent_config: AgentConfig,
    /// Prompt to send to the agent (knot instructions).
    pub prompt: String,
    /// The persona's prompt, sent ahead of the instructions.
    pub profile_prompt: String,
    /// Path to the strand being processed.
    pub strand_path: StrandPath,
    /// The kind of strand event.
    pub event_type: String,
    /// The knot, when known.
    pub knot_name: Option<String>,
    /// The session deadline; the runner's own default where there is none.
    pub timeout: Option<TimeSpan>,
}

/// Model of a [`ExecutionContext`].
pub struct ExecutionContextView {
    pub agent_config: AgentConfigView,
    pub prompt: Seq<char>,
    pub profile_prompt: Seq<char>,
    pub strand_path: Seq<char>,
    pub event_type: Seq<char>,
    pub knot_name: Option<Seq<char>>,
    pub timeout: Option<TimeSpan>,
}

impl View for ExecutionContext {
    type V = ExecutionContextView;

    open spec fn view(&self) -> ExecutionContextView {
        ExecutionContextView {
            agent_config: self.agent_config@,
            prompt: self.prompt@,
            profile_prompt: self.profile_prompt@,
            strand_path: self.strand_path@,
            event_type: self.event_type@,
            knot_name: text::opt_text(self.knot_name),
            timeout: self.timeout,
        }
    }
}

impl Clone for ExecutionContext {
    fn clone(&self) -> (copy: Self)
        ensures
            copy@ == self@,
    {
        ExecutionContext {
            agent_config: self.agent_config.clone(),
            prompt: self.prompt.clone(),
            profile_prompt: self.profile_prompt.clone(),
            strand_path: self.strand_path.clone(),
            event_type: self.event_type.clone(),
            knot_name: clone_opt(&self.knot_name),
            timeout: self.timeout,
        }
    }
}

/// Token usage reported by the agent LLM provider.
#[derive(Debug, Clone, Copy, PartialEq, Eq, Structural)]
pub struct TokenUsage {
    /// Input tokens (system prompt + user messages).
    pub input: u64,
    /// Output tokens (agent response).
    pub output: u64,
    /// Tokens read from cache.
    pub cache_read: u64,
    /// Tokens written to cache.
    pub cache_write: u64,
    /// Total tokens consumed.
    pub total: u64,
}

/// One finished compaction that the agent reported.
#[derive(Debug, PartialEq, Eq)]
pub struct CompactionRecord {
    /// `overflow`, `threshold` or `manual`.
    pub reason: String,
    /// Context tokens before compaction; none when it failed.
    pub tokens_before: Option<u64>,
    /// Whether the prompt is retried after the compaction.
    pub will_retry: bool,
    /// What went wrong when it failed.
    pub error: Option<String>,
    /// Whether it was started but aborted.
    pub aborted: bool,
}

/// Model of a [`CompactionRecord`].
pub struct CompactionRecordView {
    pub reason: Seq<char>,
    pub tokens_before: Option<u64>,
    pub will_retry: bool,
    pub error: Option<Seq<char>>,
    pub aborted: bool,
}

impl View for CompactionRecord {
    type V = CompactionRecordView;

    open spec fn view(&self) -> CompactionRecordView {
        CompactionRecordView {
            reason: self.reason@,
            tokens_before: self.tokens_before,
            will_retry: self.will_retry,
            error: text::opt_text(self.error),
            aborted: self.aborted,
        }
    }
}

impl Clone for CompactionRecord {
    fn clone(&self) -> (copy: Self)
        ensures
            copy == *self,
    {
        CompactionRecord {
            reason: self.reason.clone(),
            tokens_before: self.tokens_before,
            will_retry: self.will_retry,
            error: clone_opt(&self.error),
            aborted: self.aborted,
        }
    }
}

impl CompactionRecordView {
    /// Whether the compaction neither failed nor was aborted.
    pub open spec fn succeeded(self) -> bool {
        self.error is None && !self.aborted
    }
}

/// A compaction boundary seen while the agent runs.
#[allow(inconsistent_fields)]
#[derive(Debug, PartialEq, Eq)]
pub enum CompactionObservation {
    /// A compaction began.
    Started { session_id: Option<String>, reason: String },
    /// A compaction ended; the record tells how.
    Ended { session_id: Option<String>, record: CompactionRecord },
    /// The session was asked to go on after a compaction ended its turn.
    Continued { session_id: Option<String>, reason: String },
}

/// The request to wrap up that an invocation saw.
#[derive(Debug, PartialEq, Eq)]
pub struct WrapUpRecord {
    /// Context tokens when the request was queued.
    pub context_tokens: u64,
    /// The configured limit.
    pub limit: u64,
    /// How the request was delivered.
    pub mechanism: String,
}

/// Model of a [`WrapUpRecord`].
pub struct WrapUpRecordView {
    pub context_tokens: u64,
    pub limit: u64,
    pub mechanism: Seq<char>,
}

impl View for WrapUpRecord {
    type V = WrapUpRecordView;

    open spec fn view(&self) -> WrapUpRecordView {
        WrapUpRecordView {
            context_tokens: self.context_tokens,
            limit: self.limit,
            mechanism: self.mechanism@,
        }
    }
}

impl Clone for WrapUpRecord {
    fn clone(&self) -> (copy: Self)
        ensures
            copy == *self,
    {
        WrapUpRecord {
            context_tokens: self.context_tokens,
            limit: self.limit,
            mechanism: self.mechanism.clone(),
        }
    }
}

/// Metadata captured from an agent invocation.
#[derive(Debug, PartialEq, Eq)]
pub struct AgentInvocationMetadata {
    /// The agent's session, for resuming it.
    pub session_id: Option<String>,
    /// Token usage from the LLM provider.
    pub token_usage: Option<TokenUsage>,
    /// The finished compactions, in order.
    pub compactions: Vec<CompactionRecord>,
    /// The reasons of the started compactions, in order.
    pub compaction_starts: Vec<String>,
    /// The request to wrap up, if there was one.
    pub wrap_up: Option<WrapUpRecord>,
}

/// Model of a [`AgentInvocationMetadata`].
pub struct AgentInvocationMetadataView {
    pub session_id: Option<Seq<char>>,
    pub token_usage: Option<TokenUsage>,
    pub compactions: Seq<CompactionRecordView>,
    pub compaction_starts: Seq<Seq<char>>,
    pub wrap_up: Option<WrapUpRecordView>,
}

impl View for AgentInvocationMetadata {
    type V = AgentInvocationMetadataView;

    open spec fn view(&self) -> AgentInvocationMetadataView {
        AgentInvocationMetadataView {
            session_id: text::opt_text(self.session_id),
            token_usage: self.token_usage,
            compactions: text::views(self.compactions@),
            compaction_starts: text::texts(self.compaction_starts@),
            wrap_up: text::opt_view(self.wrap_up),
        }
    }
}

impl Clone for AgentInvocationMetadata {
    fn clone(&self) -> (copy: Self)
        ensures
            copy@ == self@,
    {
        let compactions = self.compactions.clone();
        assert(text::views(compactions@) =~= text::views(self.compactions@));
        AgentInvocationMetadata {
            session_id: clone_opt(&self.session_id),
            token_usage: self.token_usage,
            compactions,
            compaction_starts: clone_texts(&self.compaction_starts),
            wrap_up: self.wrap_up.clone(),
        }
    }
}

/// Output captured from agent execution.
#[derive(Debug, PartialEq, Eq)]
pub struct AgentOutput {
    /// Standard output from the agent.
    pub stdout: String,
    /// Standard error from the agent.
    pub stderr: String,
    /// Exit code from the agent process.
    pub exit_code: i32,
    /// Invocation metadata, when it could be extracted.
    pub metadata: Option<AgentInvocationMetadata>,
}

/// Model of a [`AgentOutput`].
pub struct AgentOutputView {
    pub stdout: Seq<char>,
    pub stderr: Seq<char>,
    pub exit_code: i32,
    pub metadata: Option<AgentInvocationMetadataView>,
}

impl View for AgentOutput {
    type V = AgentOutputView;

    open spec fn view(&self) -> AgentOutputView {
        AgentOutputView {
            stdout: self.stdout@,
            stderr: self.stderr@,
            exit_code: self.exit_code,
            metadata: text::opt_view(self.metadata),
        }
    }
}

impl Clone for AgentOutput {
    fn clone(&self) -> (copy: Self)
        ensures
            copy@ == self@,
    {
        AgentOutput {
            stdout: self.stdout.clone(),
            stderr: self.stderr.clone(),
            exit_code: self.exit_code,
            metadata: self.metadata.clone(),
        }
    }
}

impl AgentOutputView {
    /// The session the agent reported, if it did.
    pub open spec fn session_id(self) -> Option<Seq<char>> {
        match self.metadata {
            Some(metadata) => metadata.session_id,
            None => None,
        }
    }
}

impl AgentOutput {
    /// The session the agent reported, if it did.
    pub fn session_id(&self) -> (session_id: Option<String>)
        ensures
            text::opt_text(session_id) == self@.session_id(),
    {
        match &self.metadata {
            Some(metadata) => clone_opt(&metadata.session_id),
            None => None,
        }
    }
}

/// A model behind an alias.
#[derive(Debug, PartialEq, Eq)]
pub struct ModelAlias {
    /// The alias.
    pub alias: String,
    /// The model provider.
    pub provider: String,
    /// The model.
    pub model: String,
}

/// Model of a [`ModelAlias`].
pub struct ModelAliasView {
    pub alias: Seq<char>,
    pub provider: Seq<char>,
    pub model: Seq<char>,
}

impl View for ModelAlias {
    type V = ModelAliasView;

    open spec fn view(&self) -> ModelAliasView {
        ModelAliasView {
            alias: self.alias@,
            provider: self.provider@,
            model: self.model@,
        }
    }
}

impl Clone for ModelAlias {
    fn clone(&self) -> (copy: Self)
        ensures
            copy == *self,
    {
        ModelAlias {
            alias: self.alias.clone(),
            provider: self.provider.clone(),
            model: self.model.clone(),
        }
    }
}

/// The rig's model aliases.
#[derive(Debug, PartialEq, Eq)]
pub struct ModelRegistry {
    /// The aliases, in definition order.
    pub models: Vec<ModelAlias>,
}

impl ModelRegistry {
    /// The first model under the alias, if there is one.
    pub fn resolve(&self, alias: &str) -> (found: Option<&ModelAlias>)
        ensures
            match found {
                Some(m) => exists|i: int|
                    0 <= i < self.models@.len() && *m == #[trigger] self.models@[i] && m.alias@
                        == alias@ && forall|j: int|
                        0 <= j < i ==> (#[trigger] self.models@[j]).alias@ != alias@,
                None => forall|j: int|
                    0 <= j < self.models@.len() ==> (#[trigger] self.models@[j]).alias@ != alias@,
            },
    {
        let wanted = alias.to_string();
        for i in 0..self.models.len()
            invariant
                wanted@ == alias@,
                forall|j: int| 0 <= j < i ==> (#[trigger] self.models@[j]).alias@ != alias@,
        {
            if self.models[i].alias == wanted {
                return Some(&self.models[i]);
            }
        }
        None
    }
}

/// An event that an agent emitted.
#[derive(Debug, PartialEq, Eq)]
pub struct AgentEvent {
    /// The kind of event.
    pub event_id: String,
    /// What the agent wrote.
    pub content: String,
}

/// Model of a [`AgentEvent`].
pub struct AgentEventView {
    pub event_id: Seq<char>,
    pub content: Seq<char>,
}

impl View for AgentEvent {
    type V = AgentEventView;

    open spec fn view(&self) -> AgentEventView {
        AgentEventView {
            event_id: self.event_id@,
            content: self.content@,
        }
    }
}

impl Clone for AgentEvent {
    fn clone(&self) -> (copy: Self)
        ensures
            copy == *self,
    {
        AgentEvent {
            event_id: self.event_id.clone(),
            content: self.content.clone(),
        }
    }
}

/// What a directory is watched for.
#[derive(Debug, PartialEq, Eq)]
pub enum WatchType {
    /// Strands of a knot.
    Strand(LoomId, KnotId),
}

/// Model of a [`WatchType`].
pub enum WatchTypeView {
    Strand(Seq<char>, Seq<char>),
}

impl View for WatchType {
    type V = WatchTypeView;

    open spec fn view(&self) -> WatchTypeView {
        match self {
            WatchType::Strand(loom_id, knot_id) => WatchTypeView::Strand(loom_id@, knot_id@),
        }
    }
}

// ── Answers ────────────────────────────────────────────────────────────

/// What a port answered, in terms of models.
pub type Answer<T> = Result<T, PortErrorView>;

/// The model of an answer that carries nothing.
pub open spec fn done(answer: Result<(), PortError>) -> Answer<()> {
    match answer {
        Ok(_) => Ok(()),
        Err(e) => Err(e@),
    }
}

/// The model of an answer that carries a value.
pub open spec fn answered<T: View>(answer: Result<T, PortError>) -> Answer<T::V> {
    match answer {
        Ok(value) => Ok(value@),
        Err(e) => Err(e@),
    }
}

/// The model of an answer that carries a list.
pub open spec fn answered_all<T: View>(answer: Result<Vec<T>, PortError>) -> Answer<Seq<T::V>> {
    match answer {
        Ok(values) => Ok(text::views(values@)),
        Err(e) => Err(e@),
    }
}

/// The model of an answer that may carry a value.
pub open spec fn answered_opt<T: View>(answer: Result<Option<T>, PortError>) -> Answer<
    Option<T::V>,
> {
    match answer {
        Ok(value) => Ok(text::opt_view(value)),
        Err(e) => Err(e@),
    }
}

/// The model of an answer that carries a list and warnings.
pub open spec fn answered_scan<T: View>(answer: Result<(Vec<T>, Vec<String>), PortError>) -> Answer<
    (Seq<T::V>, Seq<Seq<char>>),
> {
    match answer {
        Ok(found) => Ok((text::views(found.0@), text::texts(found.1@))),
        Err(e) => Err(e@),
    }
}

// ── Looms ──────────────────────────────────────────────────────────────

/// A call on a [`LoomRepository`].
#[allow(inconsistent_fields)]
pub enum RepositoryCall {
    Scan { rig: Seq<char>, answer: Answer<(Seq<LoomView>, Seq<Seq<char>>)> },
    ScanKnotFiles { loom_dir: Seq<char>, answer: Answer<(Seq<KnotView>, Seq<Seq<char>>)> },
    Get { id: Seq<char>, answer: Answer<Option<LoomView>> },
    List { answer: Answer<Seq<LoomView>> },
    Save { loom: LoomView, answer: Answer<()> },
}

/// Port for discovering and persisting looms.
pub trait LoomRepository {
    /// The calls made so far, with their answers.
    closed spec fn calls(&self) -> Seq<RepositoryCall> {
        Seq::empty()
    }

    /// Scan a rig directory and return all discovered looms along with
    /// any knot parse warnings.
    fn scan(&mut self, rig: &str) -> (answer: Result<(Vec<Loom>, Vec<String>), PortError>)
        ensures
            final(self).calls() == old(self).calls().push(
                RepositoryCall::Scan { rig: rig@, answer: answered_scan(answer) },
            ),
    ;

    /// Scan a single loom directory for knot files. The strand directories
    /// come as written; the caller resolves them against the project root.
    fn scan_knot_files(&mut self, loom_dir: &str) -> (answer: Result<
        (Vec<Knot>, Vec<String>),
        PortError,
    >)
        ensures
            final(self).calls() == old(self).calls().push(
                RepositoryCall::ScanKnotFiles { loom_dir: loom_dir@, answer: answered_scan(answer) },
            ),
    ;

    /// Get a single loom by its ID.
    fn get(&mut self, id: &LoomId) -> (answer: Result<Option<Loom>, PortError>)
        ensures
            final(self).calls() == old(self).calls().push(
                RepositoryCall::Get { id: id@, answer: answered_opt(answer) },
            ),
    ;

    /// List all registered looms.
    fn list(&mut self) -> (answer: Result<Vec<Loom>, PortError>)
        ensures
            final(self).calls() == old(self).calls().push(
                RepositoryCall::List { answer: answered_all(answer) },
            ),
    ;

    /// Save a loom definition.
    fn save(&mut self, loom: Loom) -> (answer: Result<(), PortError>)
        ensures
            final(self).calls() == old(self).calls().push(
                RepositoryCall::Save { loom: loom@, answer: done(answer) },
            ),
    ;
}

/// A call on a [`LoomLogPort`].
#[allow(inconsistent_fields)]
pub enum LoomLogCall {
    Open { loom_id: Seq<char>, answer: Answer<()> },
    /// `stamped` says whether the event carries a UTC time.
    Append { fact: LoomFact, stamped: bool, answer: Answer<()> },
    ReadAll { loom_id: Seq<char>, answer: Answer<Seq<LoomEventView>> },
}

/// Port for appending and querying loom activity logs.
pub trait LoomLogPort {
    /// The calls made so far, with their answers.
    closed spec fn calls(&self) -> Seq<LoomLogCall> {
        Seq::empty()
    }

    /// Open or create the activity log for a loom.
    fn open(&mut self, loom_id: &LoomId) -> (answer: Result<(), PortError>)
        ensures
            final(self).calls() == old(self).calls().push(
                LoomLogCall::Open { loom_id: loom_id@, answer: done(answer) },
            ),
    ;

    /// Append an event to the loom's current-run activity.
    fn append(&mut self, event: LoomEvent) -> (answer: Result<(), PortError>)
        ensures
            final(self).calls() == old(self).calls().push(
                LoomLogCall::Append {
                    fact: event@.fact,
                    stamped: clock::utc_time(event@.timestamp),
                    answer: done(answer),
                },
            ),
    ;

    /// Read all events for a loom.
    fn read_all(&mut self, loom_id: &LoomId) -> (answer: Result<Vec<LoomEvent>, PortError>)
        ensures
            final(self).calls() == old(self).calls().push(
                LoomLogCall::ReadAll { loom_id: loom_id@, answer: answered_all(answer) },
            ),
    ;
}

// ── Watching ───────────────────────────────────────────────────────────

/// A call on an [`EventSource`].
pub enum SourceCall {
    Watch { path: Seq<char>, answer: Answer<()> },
    Unwatch { path: Seq<char>, answer: Answer<()> },
    UnwatchWithType { path: Seq<char>, watch_type: WatchTypeView, answer: Answer<()> },
    SetLoomIds { path: Seq<char>, loom_id: Seq<char>, knot_id: Seq<char> },
    RegisterWatch { path: Seq<char>, watch_type: WatchTypeView },
}

/// Port for watching directories for file system events.
///
/// Events flow through a channel of the adapter, not through this port.
pub trait EventSource {
    /// The calls made so far, with their answers.
    closed spec fn calls(&self) -> Seq<SourceCall> {
        Seq::empty()
    }

    /// Start watching a directory for file events.
    fn watch(&mut self, path: &str) -> (answer: Result<(), PortError>)
        ensures
            final(self).calls() == old(self).calls().push(
                SourceCall::Watch { path: path@, answer: done(answer) },
            ),
    ;

    /// Stop watching a directory.
    fn unwatch(&mut self, path: &str) -> (answer: Result<(), PortError>)
        ensures
            final(self).calls() == old(self).calls().push(
                SourceCall::Unwatch { path: path@, answer: done(answer) },
            ),
    ;

    /// Stop watching a directory for one purpose, and leave its other
    /// watches alone. An adapter that knows no purposes unwatches the path.
    fn unwatch_with_type(&mut self, path: &str, watch_type: WatchType) -> (answer: Result<
        (),
        PortError,
    >)
        ensures
            final(self).calls() == old(self).calls().push(
                SourceCall::UnwatchWithType {
                    path: path@,
                    watch_type: watch_type@,
                    answer: done(answer),
                },
            ),
    ;

    /// Name the loom and knot that events from a directory are for. Comes
    /// before `watch`.
    fn set_loom_ids(&mut self, source_dir: &str, loom_id: &LoomId, knot_id: &KnotId)
        ensures
            final(self).calls() == old(self).calls().push(
                SourceCall::SetLoomIds { path: source_dir@, loom_id: loom_id@, knot_id: knot_id@ },
            ),
    ;

    /// Tell what a directory is watched for.
    fn register_watch(&mut self, path: String, watch_type: WatchType)
        ensures
            final(self).calls() == old(self).calls().push(
                SourceCall::RegisterWatch { path: path@, watch_type: watch_type@ },
            ),
    ;
}

// ── Agents ─────────────────────────────────────────────────────────────

/// What an agent is asked to run.
pub struct RunRequest {
    pub agent_config: AgentConfigView,
    pub strand_path: Seq<char>,
    pub strand_file_ref: Option<Seq<char>>,
    pub prompt: Seq<char>,
    pub profile_prompt: Seq<char>,
    pub event_type: Seq<char>,
    pub knot_name: Option<Seq<char>>,
    pub timeout: Option<TimeSpan>,
}

/// A call on an [`AgentRunner`].
#[allow(inconsistent_fields)]
pub enum RunnerCall {
    Execute { context: ExecutionContextView, answer: Answer<AgentOutputView> },
    ExecuteWithConfig { request: RunRequest, answer: Answer<AgentOutputView> },
    ManualCompact {
        context: ExecutionContextView,
        session_id: Seq<char>,
        custom_instructions: Seq<char>,
        answer: Answer<CompactionRecordView>,
    },
}

/// Port for executing the agent CLI and capturing its output.
///
/// The runner enforces a session deadline: the one it is handed, or its own
/// default where it is handed none.
pub trait AgentRunner {
    /// The calls made so far, with their answers.
    closed spec fn calls(&self) -> Seq<RunnerCall> {
        Seq::empty()
    }

    /// Execute the agent CLI with the given context.
    fn execute(&mut self, ctx: ExecutionContext) -> (answer: Result<AgentOutput, PortError>)
        ensures
            final(self).calls() == old(self).calls().push(
                RunnerCall::Execute { context: ctx@, answer: answered(answer) },
            ),
    ;

    /// Execute the agent using an `AgentConfig` to build CLI arguments.
    ///
    /// The adapter builds the arguments from `agent_config`, names the
    /// session, and refers to the strand file where `strand_file_ref` gives
    /// one (there is none for a deleted strand).
    fn execute_with_config(
        &mut self,
        agent_config: &AgentConfig,
        strand_path: StrandPath,
        strand_file_ref: Option<StrandPath>,
        prompt: String,
        profile_prompt: String,
        event_type: String,
        knot_name: Option<String>,
        timeout: Option<TimeSpan>,
    ) -> (answer: Result<AgentOutput, PortError>)
        ensures
            final(self).calls() == old(self).calls().push(
                RunnerCall::ExecuteWithConfig {
                    request: RunRequest {
                        agent_config: agent_config@,
                        strand_path: strand_path@,
                        strand_file_ref: text::opt_view(strand_file_ref),
                        prompt: prompt@,
                        profile_prompt: profile_prompt@,
                        event_type: event_type@,
                        knot_name: text::opt_text(knot_name),
                        timeout,
                    },
                    answer: answered(answer),
                },
            ),
    ;

    /// Execute the agent as [`AgentRunner::execute_with_config`] does, with an
    /// observer of the compactions as they happen. A runner without a stream
    /// to watch leaves the observer alone. Which compactions an agent makes
    /// rests with the agent, so nothing is stated of what the observer sees.
    fn execute_with_config_and_observer<O: Fn(&CompactionObservation)>(
        &mut self,
        agent_config: &AgentConfig,
        strand_path: StrandPath,
        strand_file_ref: Option<StrandPath>,
        prompt: String,
        profile_prompt: String,
        event_type: String,
        knot_name: Option<String>,
        timeout: Option<TimeSpan>,
        _observer: Option<O>,
    ) -> (answer: Result<AgentOutput, PortError>) where Self: Sized
        requires
            _observer matches Some(o) ==> forall|seen: &CompactionObservation|
                call_requires(o, (seen,)),
        ensures
            final(self).calls() == old(self).calls().push(
                RunnerCall::ExecuteWithConfig {
                    request: RunRequest {
                        agent_config: agent_config@,
                        strand_path: strand_path@,
                        strand_file_ref: text::opt_view(strand_file_ref),
                        prompt: prompt@,
                        profile_prompt: profile_prompt@,
                        event_type: event_type@,
                        knot_name: text::opt_text(knot_name),
                        timeout,
                    },
                    answer: answered(answer),
                },
            ),
    {
        self.execute_with_config(
            agent_config,
            strand_path,
            strand_file_ref,
            prompt,
            profile_prompt,
            event_type,
            knot_name,
            timeout,
        )
    }

    /// Compact an existing session. An adapter that cannot answers with
    /// [`manual_compact_unsupported`].
    fn manual_compact(
        &mut self,
        ctx: &ExecutionContext,
        session_id: &str,
        custom_instructions: &str,
    ) -> (answer: Result<CompactionRecord, PortError>)
        ensures
            final(self).calls() == old(self).calls().push(
                RunnerCall::ManualCompact {
                    context: ctx@,
                    session_id: session_id@,
                    custom_instructions: custom_instructions@,
                    answer: answered(answer),
                },
            ),
    ;

    /// A human-readable name for this runner implementation.
    fn runner_type(&self) -> (name: &str)
        default_ensures
            name@ == "unknown"@,
    {
        "unknown"
    }
}

/// The context of an invocation, for a runner that answers
/// [`AgentRunner::execute_with_config`] with [`AgentRunner::execute`]. The
/// context does not refer to the strand file: an adapter does.
pub fn context_for(
    agent_config: &AgentConfig,
    strand_path: StrandPath,
    prompt: String,
    profile_prompt: String,
    event_type: String,
    knot_name: Option<String>,
    timeout: Option<TimeSpan>,
) -> (context: ExecutionContext)
    ensures
        context@ == (ExecutionContextView {
            agent_config: agent_config@,
            prompt: prompt@,
            profile_prompt: profile_prompt@,
            strand_path: strand_path@,
            event_type: event_type@,
            knot_name: text::opt_text(knot_name),
            timeout,
        }),
{
    ExecutionContext {
        agent_config: agent_config.clone(),
        prompt,
        profile_prompt,
        strand_path,
        event_type,
        knot_name,
        timeout,
    }
}

/// The answer of a runner that cannot compact a session.
pub fn manual_compact_unsupported(session_id: &str) -> (error: PortError)
    ensures
        error@ == (PortErrorView::ManualCompactionFailed {
            message: "manual compact on session '"@ + session_id@
                + "' requires the pi-rpc adapter"@,
            session_id: Some(session_id@),
        }),
{
    let mut message = "manual compact on session '".to_string();
    message.append(session_id);
    message.append("' requires the pi-rpc adapter");
    PortError::ManualCompactionFailed { message, session_id: Some(session_id.to_string()) }
}

// ── Tie-offs ───────────────────────────────────────────────────────────

/// A call on a [`TieOffSink`].
#[allow(inconsistent_fields)]
pub enum SinkCall {
    Write { tie_off: TieOffView, answer: Answer<()> },
    Append { tie_off: TieOffView, answer: Answer<()> },
    ReadContent { path: Seq<char>, answer: Answer<Seq<char>> },
}

/// Port for writing tie-off content.
pub trait TieOffSink {
    /// The calls made so far, with their answers.
    closed spec fn calls(&self) -> Seq<SinkCall> {
        Seq::empty()
    }

    /// Write tie-off output to its target location (overwrites).
    fn write(&mut self, tie_off: TieOff) -> (answer: Result<(), PortError>)
        ensures
            final(self).calls() == old(self).calls().push(
                SinkCall::Write { tie_off: tie_off@, answer: done(answer) },
            ),
    ;

    /// Append tie-off content as a new section with metadata header.
    fn append(&mut self, tie_off: TieOff) -> (answer: Result<(), PortError>)
        ensures
            final(self).calls() == old(self).calls().push(
                SinkCall::Append { tie_off: tie_off@, answer: done(answer) },
            ),
    ;

    /// Read existing tie-off content: empty if there is none.
    fn read_content(&mut self, path: &TieOffPath) -> (answer: Result<String, PortError>)
        ensures
            final(self).calls() == old(self).calls().push(
                SinkCall::ReadContent { path: path@, answer: answered(answer) },
            ),
    ;
}

// ── Rig log ────────────────────────────────────────────────────────────

/// A call on a [`RigLogPort`].
#[allow(inconsistent_fields)]
pub enum RigLogCall {
    /// `stamped` says whether the event carries a UTC time.
    Append { fact: RigFact, stamped: bool, answer: Answer<()> },
    ReadAll { answer: Answer<Seq<RigLogEventView>> },
}

/// Port for appending and querying rig-level operational events.
pub trait RigLogPort {
    /// The calls made so far, with their answers.
    closed spec fn calls(&self) -> Seq<RigLogCall> {
        Seq::empty()
    }

    /// Append a rig-level event.
    fn append(&mut self, event: RigLogEvent) -> (answer: Result<(), PortError>)
        ensures
            final(self).calls() == old(self).calls().push(
                RigLogCall::Append {
                    fact: event@.fact,
                    stamped: clock::utc_time(event@.timestamp),
                    answer: done(answer),
                },
            ),
    ;

    /// Read all rig-level events.
    fn read_all(&mut self) -> (answer: Result<Vec<RigLogEvent>, PortError>)
        ensures
            final(self).calls() == old(self).calls().push(
                RigLogCall::ReadAll { answer: answered_all(answer) },
            ),
    ;
}

// ── Profiles and models ────────────────────────────────────────────────

/// A call on an [`AgentProfileRepository`].
#[allow(inconsistent_fields)]
pub enum ProfileCall {
    Get { name: Seq<char>, answer: Answer<Option<AgentProfileView>> },
    List { answer: Answer<Seq<AgentProfileView>> },
}

/// Port for reading agent profiles.
pub trait AgentProfileRepository {
    /// The calls made so far, with their answers.
    closed spec fn calls(&self) -> Seq<ProfileCall> {
        Seq::empty()
    }

    /// Get a single agent profile by name: none if there is no such one.
    fn get(&mut self, name: &str) -> (answer: Result<Option<AgentProfile>, PortError>)
        ensures
            final(self).calls() == old(self).calls().push(
                ProfileCall::Get { name: name@, answer: answered_opt(answer) },
            ),
    ;

    /// List all agent profiles.
    fn list(&mut self) -> (answer: Result<Vec<AgentProfile>, PortError>)
        ensures
            final(self).calls() == old(self).calls().push(
                ProfileCall::List { answer: answered_all(answer) },
            ),
    ;
}

/// Port for loading the rig-level model registry. It is read anew on every
/// call, so that an edited alias takes effect on the next strand.
pub trait ModelRegistryPort {
    /// Load the model registry.
    fn load(&mut self) -> Result<ModelRegistry, PortError>;
}

// ── Git ────────────────────────────────────────────────────────────────

/// A call on a [`GitVersioningPort`].
pub enum GitCall {
    Commit {
        loom_id: Seq<char>,
        knot_id: Seq<char>,
        strand_path: Seq<char>,
        event_type: Seq<char>,
        tie_off_content: Seq<char>,
        answer: Answer<()>,
    },
    EnsureRigRepo { rig_dir: Seq<char>, answer: Answer<()> },
}

/// Port for creating git commits to version agent work.
pub trait GitVersioningPort {
    /// The calls made so far, with their answers.
    closed spec fn calls(&self) -> Seq<GitCall> {
        Seq::empty()
    }

    /// Create a git commit for a knot run.
    fn commit(
        &mut self,
        loom_id: &LoomId,
        knot_id: &KnotId,
        strand_path: &StrandPath,
        event_type: &str,
        tie_off_content: &str,
    ) -> (answer: Result<(), PortError>)
        ensures
            final(self).calls() == old(self).calls().push(
                GitCall::Commit {
                    loom_id: loom_id@,
                    knot_id: knot_id@,
                    strand_path: strand_path@,
                    event_type: event_type@,
                    tie_off_content: tie_off_content@,
                    answer: done(answer),
                },
            ),
    ;

    /// Make the rig directory a git repository of its own, apart from any
    /// repository around it.
    fn ensure_rig_repo(&mut self, rig_dir: &str) -> (answer: Result<(), PortError>)
        ensures
            final(self).calls() == old(self).calls().push(
                GitCall::EnsureRigRepo { rig_dir: rig_dir@, answer: done(answer) },
            ),
    ;
}

// ── State ──────────────────────────────────────────────────────────────

/// A call on a [`StateWriterPort`].
pub struct StateWrite {
    pub state: RigStateView,
    pub answer: Answer<()>,
}

/// Port for writing the rig state snapshot.
pub trait StateWriterPort {
    /// The calls made so far, with their answers.
    closed spec fn calls(&self) -> Seq<StateWrite> {
        Seq::empty()
    }

    /// Write the given `RigState` atomically.
    fn write_state(&mut self, state: &RigState) -> (answer: Result<(), PortError>)
        ensures
            final(self).calls() == old(self).calls().push(
                StateWrite { state: state@, answer: done(answer) },
            ),
    ;
}

// ── Strand queue ───────────────────────────────────────────────────────

/// Whether the first event in a queue that satisfies `wanted` stands at `i`.
pub open spec fn first_in(
    events: Seq<PendingEventView>,
    wanted: spec_fn(PendingEventView) -> bool,
    i: int,
) -> bool {
    &&& 0 <= i < events.len()
    &&& wanted(events[i])
    &&& forall|j: int| 0 <= j < i ==> !wanted(#[trigger] events[j])
}

/// The events that satisfy `wanted`: the first of them, if any.
pub open spec fn lookup(
    events: Seq<PendingEventView>,
    wanted: spec_fn(PendingEventView) -> bool,
) -> Option<int> {
    if exists|i: int| first_in(events, wanted, i) {
        Some(choose|i: int| first_in(events, wanted, i))
    } else {
        None
    }
}

/// The events that carry a name.
pub open spec fn has_id(id: Seq<char>) -> spec_fn(PendingEventView) -> bool {
    |e: PendingEventView| e.id == id
}

/// The events that are the same as the given one, apart from their names.
pub open spec fn same_as(event: PendingEventView) -> spec_fn(PendingEventView) -> bool {
    |e: PendingEventView| e.dedup_key() == event.dedup_key()
}

/// The queue after an event took the place of the one it is the same as,
/// or else joined the back.
pub open spec fn replaced_or_pushed(
    events: Seq<PendingEventView>,
    event: PendingEventView,
) -> Seq<PendingEventView> {
    match lookup(events, same_as(event)) {
        Some(i) => events.update(i, event),
        None => events.push(event),
    }
}

/// Port for the strand event queue: first in, first out, with a shutdown
/// sentinel behind all events.
pub trait StrandEventQueue {
    /// The queued events, front first.
    closed spec fn events(&self) -> Seq<PendingEventView> {
        Seq::empty()
    }

    /// Whether shutdown has been signalled.
    closed spec fn closed(&self) -> bool {
        false
    }

    /// Push an event. Returns its ID.
    fn push(&mut self, event: PendingEvent) -> (id: PendingEventId)
        ensures
            final(self).events() == old(self).events().push(event@),
            final(self).closed() == old(self).closed(),
            id@ == event@.id,
    ;

    /// Push an event, or replace an existing one with the same dedup key.
    /// Returns the ID of the (new or replaced) entry.
    fn push_or_replace(&mut self, event: PendingEvent) -> (id: PendingEventId)
        ensures
            final(self).events() == replaced_or_pushed(old(self).events(), event@),
            final(self).closed() == old(self).closed(),
            id@ == event@.id,
    ;

    /// Take the front event. The shutdown sentinel comes once no event is
    /// left, and stays.
    fn pop(&mut self) -> (item: Option<PendingEventOrShutdown>)
        ensures
            final(self).closed() == old(self).closed(),
            if old(self).events().len() > 0 {
                &&& item matches Some(PendingEventOrShutdown::Event(e))
                &&& e@ == old(self).events()[0]
                &&& final(self).events() == old(self).events().drop_first()
            } else {
                &&& final(self).events() == old(self).events()
                &&& item == (if old(self).closed() {
                    Some(PendingEventOrShutdown::Shutdown)
                } else {
                    None
                })
            },
    ;

    /// Read the front event without removing it. Never the sentinel.
    fn front(&self) -> (event: Option<PendingEvent>)
        ensures
            text::opt_view(event) == (if self.events().len() > 0 {
                Some(self.events()[0])
            } else {
                None
            }),
    ;

    /// Whether a shutdown has been signalled.
    fn shutdown_signaled(&self) -> (closed: bool)
        ensures
            closed == self.closed(),
    ;

    /// All pending events (excludes the shutdown sentinel).
    fn snapshot(&self) -> (events: Vec<PendingEvent>)
        ensures
            text::views(events@) == self.events(),
    ;

    /// Delete the first pending event with the ID. Returns whether there
    /// was one.
    fn delete(&mut self, id: &PendingEventId) -> (found: bool)
        ensures
            final(self).closed() == old(self).closed(),
            match lookup(old(self).events(), has_id(id@)) {
                Some(i) => found && final(self).events() == old(self).events().remove(i),
                None => !found && final(self).events() == old(self).events(),
            },
    ;

    /// The first pending event with the ID.
    fn pending_event(&self, id: &PendingEventId) -> (event: Option<PendingEvent>)
        ensures
            text::opt_view(event) == (match lookup(self.events(), has_id(id@)) {
                Some(i) => Some(self.events()[i]),
                None => None,
            }),
    ;

    /// The number of pending events (excludes the shutdown sentinel).
    fn len(&self) -> (n: usize)
        ensures
            n == self.events().len(),
    ;

    /// Whether there are neither events nor the sentinel.
    fn is_empty(&self) -> (empty: bool)
        ensures
            empty == (self.events().len() == 0 && !self.closed()),
    ;

    /// Push a shutdown sentinel.
    fn push_shutdown(&mut self)
        ensures
            final(self).events() == old(self).events(),
            final(self).closed(),
    ;
}

/// Port for dispatching agent events to consumer knots.
pub trait EventDispatcherPort {
    /// Dispatch a single agent event to a consumer knot.
    ///
    /// `seq` is the dispatch's position within its target directory: zero
    /// for a single one. Returns the path of the created event file.
    fn dispatch(
        &mut self,
        event: &AgentEvent,
        consumer_knot: &Knot,
        producer_knot: &str,
        consumer_loom_id: &LoomId,
        rig_dir: &str,
        seq: u32,
    ) -> Result<String, PortError>;
}

} // verus!
