//! Events: what happens to strands, looms and their configuration.

use crate::entities::{Knot, KnotId, KnotView, LoomId, StrandPath, TieOffPath};
use crate::text;
use crate::text::{clone_opt, clone_texts};
use vstd::prelude::*;

verus! {

// ── Loom events ────────────────────────────────────────────────────────

/// An entry of a loom's activity log.
#[allow(inconsistent_fields)]
#[derive(Debug, PartialEq, Eq)]
pub enum LoomEvent {
    /// The loom's watchers are about to start.
    LoomStarted {
        loom_id: LoomId,
        timestamp: String,
    },
    /// The loom was unregistered.
    LoomStopped {
        loom_id: LoomId,
        timestamp: String,
    },
    /// A knot joined the loom.
    KnotRegistered {
        loom_id: LoomId,
        knot_id: KnotId,
        timestamp: String,
    },
    /// A knot left the loom.
    KnotDeregistered {
        loom_id: LoomId,
        knot_id: KnotId,
        timestamp: String,
    },
    /// A knot started on a strand.
    KnotProcessing {
        loom_id: LoomId,
        knot_id: KnotId,
        strand_path: StrandPath,
        timestamp: String,
    },
    /// A knot finished a strand.
    KnotCompleted {
        loom_id: LoomId,
        knot_id: KnotId,
        strand_path: StrandPath,
        tie_off_path: TieOffPath,
        timestamp: String,
    },
    /// A knot failed on a strand.
    KnotFailed {
        loom_id: LoomId,
        knot_id: KnotId,
        strand_path: StrandPath,
        error: String,
        timestamp: String,
    },
    /// A strand was handled, with the error where it failed.
    StrandProcessed {
        loom_id: LoomId,
        strand_path: StrandPath,
        error: Option<String>,
        timestamp: String,
    },
    /// A strand was left alone.
    StrandIgnored {
        loom_id: LoomId,
        knot_id: KnotId,
        strand_path: StrandPath,
        reason: String,
        timestamp: String,
    },
    /// A strand was not there to process.
    StrandSkipped {
        loom_id: LoomId,
        knot_id: KnotId,
        strand_path: StrandPath,
        reason: String,
        timestamp: String,
    },
    /// The agent was stopped after a silent spell.
    AgentInactivity {
        loom_id: LoomId,
        knot_id: KnotId,
        strand_path: StrandPath,
        session_id: String,
        silent_secs: u64,
        window_secs: u64,
        blocked_call: Option<String>,
        attempt: u32,
        timestamp: String,
    },
    /// A retry is about to start.
    SessionResumed {
        loom_id: LoomId,
        knot_id: KnotId,
        strand_path: StrandPath,
        session_id: String,
        attempt: u32,
        timestamp: String,
    },
    /// The agent ended its turn without a response.
    KnotEmptyResponse {
        loom_id: LoomId,
        knot_id: KnotId,
        strand_path: StrandPath,
        attempt: u32,
        timestamp: String,
    },
    /// A compaction of the session context began.
    CompactionStarted {
        loom_id: LoomId,
        knot_id: KnotId,
        strand_path: StrandPath,
        session_id: String,
        reason: String,
        attempt: u32,
        timestamp: String,
    },
    /// The session context was compacted.
    ContextCompacted {
        loom_id: LoomId,
        knot_id: KnotId,
        strand_path: StrandPath,
        session_id: String,
        reason: String,
        tokens_before: Option<u64>,
        attempt: u32,
        timestamp: String,
    },
    /// A compaction failed or was aborted.
    ContextCompactionFailed {
        loom_id: LoomId,
        knot_id: KnotId,
        strand_path: StrandPath,
        session_id: String,
        reason: String,
        error: Option<String>,
        aborted: bool,
        attempt: u32,
        timestamp: String,
    },
    /// The agent died in the middle of a compaction.
    CompactionInterrupted {
        loom_id: LoomId,
        knot_id: KnotId,
        strand_path: StrandPath,
        session_id: String,
        reason: String,
        attempt: u32,
        timestamp: String,
    },
    /// An explicit compaction of the session worked.
    ManualCompactionSucceeded {
        loom_id: LoomId,
        knot_id: KnotId,
        strand_path: StrandPath,
        session_id: String,
        tokens_before: u64,
        attempt: u32,
        timestamp: String,
    },
    /// An explicit compaction of the session failed.
    ManualCompactionFailed {
        loom_id: LoomId,
        knot_id: KnotId,
        strand_path: StrandPath,
        session_id: String,
        error: String,
        attempt: u32,
        timestamp: String,
    },
    /// A compacted session was entered again.
    SessionRestarted {
        loom_id: LoomId,
        knot_id: KnotId,
        strand_path: StrandPath,
        session_id: String,
        attempt: u32,
        timestamp: String,
    },
    /// A run never finished before a restart.
    RunAbandoned {
        loom_id: LoomId,
        knot_id: KnotId,
        strand_path: StrandPath,
        session_id: Option<String>,
        timestamp: String,
    },
    /// The session was asked to go on after a compaction.
    TurnContinued {
        loom_id: LoomId,
        knot_id: KnotId,
        strand_path: StrandPath,
        session_id: String,
        reason: String,
        attempt: u32,
        timestamp: String,
    },
    /// The agent was asked to wrap up.
    ContextWrapUpSteered {
        loom_id: LoomId,
        knot_id: KnotId,
        strand_path: StrandPath,
        session_id: String,
        context_tokens: u64,
        limit: u64,
        attempt: u32,
        mechanism: String,
        timestamp: String,
    },
    /// Agent events went to consumers: each as event, consumer knot,
    /// consumer loom and file.
    EventsDispatched {
        loom_id: LoomId,
        knot_id: KnotId,
        strand_path: StrandPath,
        dispatches: Vec<(String, String, String, String)>,
        timestamp: String,
    },
    /// The agent left out events that were expected of it.
    KnotEventsMissing {
        loom_id: LoomId,
        knot_id: KnotId,
        strand_path: StrandPath,
        expected_events: Vec<String>,
        missing_events: Vec<String>,
        timestamp: String,
    },
    /// A knot file held an unknown property.
    KnotParseWarning {
        loom_id: LoomId,
        knot_file_name: String,
        message: String,
        timestamp: String,
    },
    /// A missing strand directory was created.
    DirectoryCreated {
        loom_id: LoomId,
        knot_id: KnotId,
        directory: String,
        timestamp: String,
    },
    /// A task list was handed over to a further run.
    TasksIncomplete {
        loom_id: LoomId,
        knot_id: KnotId,
        strand_path: StrandPath,
        continuations: u32,
        reason: String,
        budget_secs: Option<u64>,
        batch_start_epoch: Option<u64>,
        timestamp: String,
    },
    /// A task list was given up with work left.
    BatchIncomplete {
        loom_id: LoomId,
        knot_id: KnotId,
        reason: String,
        continuations: u32,
        budget_secs: Option<u64>,
        batch_start_epoch: Option<u64>,
        timestamp: String,
    },
}

/// What a [`LoomEvent`] reports, without the time at which it happened.
#[allow(inconsistent_fields)]
pub enum LoomFact {
    LoomStarted { loom_id: Seq<char> },
    LoomStopped { loom_id: Seq<char> },
    KnotRegistered { loom_id: Seq<char>, knot_id: Seq<char> },
    KnotDeregistered { loom_id: Seq<char>, knot_id: Seq<char> },
    KnotProcessing { loom_id: Seq<char>, knot_id: Seq<char>, strand_path: Seq<char> },
    KnotCompleted {
        loom_id: Seq<char>,
        knot_id: Seq<char>,
        strand_path: Seq<char>,
        tie_off_path: Seq<char>,
    },
    KnotFailed {
        loom_id: Seq<char>,
        knot_id: Seq<char>,
        strand_path: Seq<char>,
        error: Seq<char>,
    },
    StrandProcessed { loom_id: Seq<char>, strand_path: Seq<char>, error: Option<Seq<char>> },
    StrandIgnored {
        loom_id: Seq<char>,
        knot_id: Seq<char>,
        strand_path: Seq<char>,
        reason: Seq<char>,
    },
    StrandSkipped {
        loom_id: Seq<char>,
        knot_id: Seq<char>,
        strand_path: Seq<char>,
        reason: Seq<char>,
    },
    AgentInactivity {
        loom_id: Seq<char>,
        knot_id: Seq<char>,
        strand_path: Seq<char>,
        session_id: Seq<char>,
        silent_secs: u64,
        window_secs: u64,
        blocked_call: Option<Seq<char>>,
        attempt: u32,
    },
    SessionResumed {
        loom_id: Seq<char>,
        knot_id: Seq<char>,
        strand_path: Seq<char>,
        session_id: Seq<char>,
        attempt: u32,
    },
    KnotEmptyResponse {
        loom_id: Seq<char>,
        knot_id: Seq<char>,
        strand_path: Seq<char>,
        attempt: u32,
    },
    CompactionStarted {
        loom_id: Seq<char>,
        knot_id: Seq<char>,
        strand_path: Seq<char>,
        session_id: Seq<char>,
        reason: Seq<char>,
        attempt: u32,
    },
    ContextCompacted {
        loom_id: Seq<char>,
        knot_id: Seq<char>,
        strand_path: Seq<char>,
        session_id: Seq<char>,
        reason: Seq<char>,
        tokens_before: Option<u64>,
        attempt: u32,
    },
    ContextCompactionFailed {
        loom_id: Seq<char>,
        knot_id: Seq<char>,
        strand_path: Seq<char>,
        session_id: Seq<char>,
        reason: Seq<char>,
        error: Option<Seq<char>>,
        aborted: bool,
        attempt: u32,
    },
    CompactionInterrupted {
        loom_id: Seq<char>,
        knot_id: Seq<char>,
        strand_path: Seq<char>,
        session_id: Seq<char>,
        reason: Seq<char>,
        attempt: u32,
    },
    ManualCompactionSucceeded {
        loom_id: Seq<char>,
        knot_id: Seq<char>,
        strand_path: Seq<char>,
        session_id: Seq<char>,
        tokens_before: u64,
        attempt: u32,
    },
    ManualCompactionFailed {
        loom_id: Seq<char>,
        knot_id: Seq<char>,
        strand_path: Seq<char>,
        session_id: Seq<char>,
        error: Seq<char>,
        attempt: u32,
    },
    SessionRestarted {
        loom_id: Seq<char>,
        knot_id: Seq<char>,
        strand_path: Seq<char>,
        session_id: Seq<char>,
        attempt: u32,
    },
    RunAbandoned {
        loom_id: Seq<char>,
        knot_id: Seq<char>,
        strand_path: Seq<char>,
        session_id: Option<Seq<char>>,
    },
    TurnContinued {
        loom_id: Seq<char>,
        knot_id: Seq<char>,
        strand_path: Seq<char>,
        session_id: Seq<char>,
        reason: Seq<char>,
        attempt: u32,
    },
    ContextWrapUpSteered {
        loom_id: Seq<char>,
        knot_id: Seq<char>,
        strand_path: Seq<char>,
        session_id: Seq<char>,
        context_tokens: u64,
        limit: u64,
        attempt: u32,
        mechanism: Seq<char>,
    },
    EventsDispatched {
        loom_id: Seq<char>,
        knot_id: Seq<char>,
        strand_path: Seq<char>,
        dispatches: Seq<(Seq<char>, Seq<char>, Seq<char>, Seq<char>)>,
    },
    KnotEventsMissing {
        loom_id: Seq<char>,
        knot_id: Seq<char>,
        strand_path: Seq<char>,
        expected_events: Seq<Seq<char>>,
        missing_events: Seq<Seq<char>>,
    },
    KnotParseWarning { loom_id: Seq<char>, knot_file_name: Seq<char>, message: Seq<char> },
    DirectoryCreated { loom_id: Seq<char>, knot_id: Seq<char>, directory: Seq<char> },
    TasksIncomplete {
        loom_id: Seq<char>,
        knot_id: Seq<char>,
        strand_path: Seq<char>,
        continuations: u32,
        reason: Seq<char>,
        budget_secs: Option<u64>,
        batch_start_epoch: Option<u64>,
    },
    BatchIncomplete {
        loom_id: Seq<char>,
        knot_id: Seq<char>,
        reason: Seq<char>,
        continuations: u32,
        budget_secs: Option<u64>,
        batch_start_epoch: Option<u64>,
    },
}

/// Model of a [`LoomEvent`].
pub struct LoomEventView {
    pub fact: LoomFact,
    pub timestamp: Seq<char>,
}

impl View for LoomEvent {
    type V = LoomEventView;

    open spec fn view(&self) -> LoomEventView {
        LoomEventView { fact: self.fact(), timestamp: self.timestamp() }
    }
}

impl LoomEvent {
    /// What the event reports.
    pub open spec fn fact(self) -> LoomFact {
        match self {
            LoomEvent::LoomStarted { loom_id, .. } => LoomFact::LoomStarted {
                loom_id: loom_id@,
            },
            LoomEvent::LoomStopped { loom_id, .. } => LoomFact::LoomStopped {
                loom_id: loom_id@,
            },
            LoomEvent::KnotRegistered { loom_id, knot_id, .. } => LoomFact::KnotRegistered {
                loom_id: loom_id@,
                knot_id: knot_id@,
            },
            LoomEvent::KnotDeregistered { loom_id, knot_id, .. } => LoomFact::KnotDeregistered {
                loom_id: loom_id@,
                knot_id: knot_id@,
            },
            LoomEvent::KnotProcessing { loom_id, knot_id, strand_path, .. } => LoomFact::KnotProcessing {
                loom_id: loom_id@,
                knot_id: knot_id@,
                strand_path: strand_path@,
            },
            LoomEvent::KnotCompleted { loom_id, knot_id, strand_path, tie_off_path, .. } => LoomFact::KnotCompleted {
                loom_id: loom_id@,
                knot_id: knot_id@,
                strand_path: strand_path@,
                tie_off_path: tie_off_path@,
            },
            LoomEvent::KnotFailed { loom_id, knot_id, strand_path, error, .. } => LoomFact::KnotFailed {
                loom_id: loom_id@,
                knot_id: knot_id@,
                strand_path: strand_path@,
                error: error@,
            },
            LoomEvent::StrandProcessed { loom_id, strand_path, error, .. } => LoomFact::StrandProcessed {
                loom_id: loom_id@,
                strand_path: strand_path@,
                error: text::opt_text(error),
            },
            LoomEvent::StrandIgnored { loom_id, knot_id, strand_path, reason, .. } => LoomFact::StrandIgnored {
                loom_id: loom_id@,
                knot_id: knot_id@,
                strand_path: strand_path@,
                reason: reason@,
            },
            LoomEvent::StrandSkipped { loom_id, knot_id, strand_path, reason, .. } => LoomFact::StrandSkipped {
                loom_id: loom_id@,
                knot_id: knot_id@,
                strand_path: strand_path@,
                reason: reason@,
            },
            LoomEvent::AgentInactivity {
                loom_id,
                knot_id,
                strand_path,
                session_id,
                silent_secs,
                window_secs,
                blocked_call,
                attempt,
                ..
            } => LoomFact::AgentInactivity {
                loom_id: loom_id@,
                knot_id: knot_id@,
                strand_path: strand_path@,
                session_id: session_id@,
                silent_secs,
                window_secs,
                blocked_call: text::opt_text(blocked_call),
                attempt,
            },
            LoomEvent::SessionResumed {
                loom_id,
                knot_id,
                strand_path,
                session_id,
                attempt,
                ..
            } => LoomFact::SessionResumed {
                loom_id: loom_id@,
                knot_id: knot_id@,
                strand_path: strand_path@,
                session_id: session_id@,
                attempt,
            },
            LoomEvent::KnotEmptyResponse { loom_id, knot_id, strand_path, attempt, .. } => LoomFact::KnotEmptyResponse {
                loom_id: loom_id@,
                knot_id: knot_id@,
                strand_path: strand_path@,
                attempt,
            },
            LoomEvent::CompactionStarted {
                loom_id,
                knot_id,
                strand_path,
                session_id,
                reason,
                attempt,
                ..
            } => LoomFact::CompactionStarted {
                loom_id: loom_id@,
                knot_id: knot_id@,
                strand_path: strand_path@,
                session_id: session_id@,
                reason: reason@,
                attempt,
            },
            LoomEvent::ContextCompacted {
                loom_id,
                knot_id,
                strand_path,
                session_id,
                reason,
                tokens_before,
                attempt,
                ..
            } => LoomFact::ContextCompacted {
                loom_id: loom_id@,
                knot_id: knot_id@,
                strand_path: strand_path@,
                session_id: session_id@,
                reason: reason@,
                tokens_before,
                attempt,
            },
            LoomEvent::ContextCompactionFailed {
                loom_id,
                knot_id,
                strand_path,
                session_id,
                reason,
                error,
                aborted,
                attempt,
                ..
            } => LoomFact::ContextCompactionFailed {
                loom_id: loom_id@,
                knot_id: knot_id@,
                strand_path: strand_path@,
                session_id: session_id@,
                reason: reason@,
                error: text::opt_text(error),
                aborted,
                attempt,
            },
            LoomEvent::CompactionInterrupted {
                loom_id,
                knot_id,
                strand_path,
                session_id,
                reason,
                attempt,
                ..
            } => LoomFact::CompactionInterrupted {
                loom_id: loom_id@,
                knot_id: knot_id@,
                strand_path: strand_path@,
                session_id: session_id@,
                reason: reason@,
                attempt,
            },
            LoomEvent::ManualCompactionSucceeded {
                loom_id,
                knot_id,
                strand_path,
                session_id,
                tokens_before,
                attempt,
                ..
            } => LoomFact::ManualCompactionSucceeded {
                loom_id: loom_id@,
                knot_id: knot_id@,
                strand_path: strand_path@,
                session_id: session_id@,
                tokens_before,
                attempt,
            },
            LoomEvent::ManualCompactionFailed {
                loom_id,
                knot_id,
                strand_path,
                session_id,
                error,
                attempt,
                ..
            } => LoomFact::ManualCompactionFailed {
                loom_id: loom_id@,
                knot_id: knot_id@,
                strand_path: strand_path@,
                session_id: session_id@,
                error: error@,
                attempt,
            },
            LoomEvent::SessionRestarted {
                loom_id,
                knot_id,
                strand_path,
                session_id,
                attempt,
                ..
            } => LoomFact::SessionRestarted {
                loom_id: loom_id@,
                knot_id: knot_id@,
                strand_path: strand_path@,
                session_id: session_id@,
                attempt,
            },
            LoomEvent::RunAbandoned { loom_id, knot_id, strand_path, session_id, .. } => LoomFact::RunAbandoned {
                loom_id: loom_id@,
                knot_id: knot_id@,
                strand_path: strand_path@,
                session_id: text::opt_text(session_id),
            },
            LoomEvent::TurnContinued {
                loom_id,
                knot_id,
                strand_path,
                session_id,
                reason,
                attempt,
                ..
            } => LoomFact::TurnContinued {
                loom_id: loom_id@,
                knot_id: knot_id@,
                strand_path: strand_path@,
                session_id: session_id@,
                reason: reason@,
                attempt,
            },
            LoomEvent::ContextWrapUpSteered {
                loom_id,
                knot_id,
                strand_path,
                session_id,
                context_tokens,
                limit,
                attempt,
                mechanism,
                ..
            } => LoomFact::ContextWrapUpSteered {
                loom_id: loom_id@,
                knot_id: knot_id@,
                strand_path: strand_path@,
                session_id: session_id@,
                context_tokens,
                limit,
                attempt,
                mechanism: mechanism@,
            },
            LoomEvent::EventsDispatched { loom_id, knot_id, strand_path, dispatches, .. } => LoomFact::EventsDispatched {
                loom_id: loom_id@,
                knot_id: knot_id@,
                strand_path: strand_path@,
                dispatches: dispatches@.map_values(|x: (String, String, String, String)| (x.0@, x.1@, x.2@, x.3@)),
            },
            LoomEvent::KnotEventsMissing {
                loom_id,
                knot_id,
                strand_path,
                expected_events,
                missing_events,
                ..
            } => LoomFact::KnotEventsMissing {
                loom_id: loom_id@,
                knot_id: knot_id@,
                strand_path: strand_path@,
                expected_events: text::texts(expected_events@),
                missing_events: text::texts(missing_events@),
            },
            LoomEvent::KnotParseWarning { loom_id, knot_file_name, message, .. } => LoomFact::KnotParseWarning {
                loom_id: loom_id@,
                knot_file_name: knot_file_name@,
                message: message@,
            },
            LoomEvent::DirectoryCreated { loom_id, knot_id, directory, .. } => LoomFact::DirectoryCreated {
                loom_id: loom_id@,
                knot_id: knot_id@,
                directory: directory@,
            },
            LoomEvent::TasksIncomplete {
                loom_id,
                knot_id,
                strand_path,
                continuations,
                reason,
                budget_secs,
                batch_start_epoch,
                ..
            } => LoomFact::TasksIncomplete {
                loom_id: loom_id@,
                knot_id: knot_id@,
                strand_path: strand_path@,
                continuations,
                reason: reason@,
                budget_secs,
                batch_start_epoch,
            },
            LoomEvent::BatchIncomplete {
                loom_id,
                knot_id,
                reason,
                continuations,
                budget_secs,
                batch_start_epoch,
                ..
            } => LoomFact::BatchIncomplete {
                loom_id: loom_id@,
                knot_id: knot_id@,
                reason: reason@,
                continuations,
                budget_secs,
                batch_start_epoch,
            },
        }
    }

    /// When the event happened.
    pub open spec fn timestamp(self) -> Seq<char> {
        match self {
            LoomEvent::LoomStarted { timestamp, .. } => timestamp@,
            LoomEvent::LoomStopped { timestamp, .. } => timestamp@,
            LoomEvent::KnotRegistered { timestamp, .. } => timestamp@,
            LoomEvent::KnotDeregistered { timestamp, .. } => timestamp@,
            LoomEvent::KnotProcessing { timestamp, .. } => timestamp@,
            LoomEvent::KnotCompleted { timestamp, .. } => timestamp@,
            LoomEvent::KnotFailed { timestamp, .. } => timestamp@,
            LoomEvent::StrandProcessed { timestamp, .. } => timestamp@,
            LoomEvent::StrandIgnored { timestamp, .. } => timestamp@,
            LoomEvent::StrandSkipped { timestamp, .. } => timestamp@,
            LoomEvent::AgentInactivity { timestamp, .. } => timestamp@,
            LoomEvent::SessionResumed { timestamp, .. } => timestamp@,
            LoomEvent::KnotEmptyResponse { timestamp, .. } => timestamp@,
            LoomEvent::CompactionStarted { timestamp, .. } => timestamp@,
            LoomEvent::ContextCompacted { timestamp, .. } => timestamp@,
            LoomEvent::ContextCompactionFailed { timestamp, .. } => timestamp@,
            LoomEvent::CompactionInterrupted { timestamp, .. } => timestamp@,
            LoomEvent::ManualCompactionSucceeded { timestamp, .. } => timestamp@,
            LoomEvent::ManualCompactionFailed { timestamp, .. } => timestamp@,
            LoomEvent::SessionRestarted { timestamp, .. } => timestamp@,
            LoomEvent::RunAbandoned { timestamp, .. } => timestamp@,
            LoomEvent::TurnContinued { timestamp, .. } => timestamp@,
            LoomEvent::ContextWrapUpSteered { timestamp, .. } => timestamp@,
            LoomEvent::EventsDispatched { timestamp, .. } => timestamp@,
            LoomEvent::KnotEventsMissing { timestamp, .. } => timestamp@,
            LoomEvent::KnotParseWarning { timestamp, .. } => timestamp@,
            LoomEvent::DirectoryCreated { timestamp, .. } => timestamp@,
            LoomEvent::TasksIncomplete { timestamp, .. } => timestamp@,
            LoomEvent::BatchIncomplete { timestamp, .. } => timestamp@,
        }
    }
}

impl LoomFact {
    /// The loom the fact is about.
    pub open spec fn loom_id(self) -> Seq<char> {
        match self {
            LoomFact::LoomStarted { loom_id, .. } => loom_id,
            LoomFact::LoomStopped { loom_id, .. } => loom_id,
            LoomFact::KnotRegistered { loom_id, .. } => loom_id,
            LoomFact::KnotDeregistered { loom_id, .. } => loom_id,
            LoomFact::KnotProcessing { loom_id, .. } => loom_id,
            LoomFact::KnotCompleted { loom_id, .. } => loom_id,
            LoomFact::KnotFailed { loom_id, .. } => loom_id,
            LoomFact::StrandProcessed { loom_id, .. } => loom_id,
            LoomFact::StrandIgnored { loom_id, .. } => loom_id,
            LoomFact::StrandSkipped { loom_id, .. } => loom_id,
            LoomFact::AgentInactivity { loom_id, .. } => loom_id,
            LoomFact::SessionResumed { loom_id, .. } => loom_id,
            LoomFact::KnotEmptyResponse { loom_id, .. } => loom_id,
            LoomFact::CompactionStarted { loom_id, .. } => loom_id,
            LoomFact::ContextCompacted { loom_id, .. } => loom_id,
            LoomFact::ContextCompactionFailed { loom_id, .. } => loom_id,
            LoomFact::CompactionInterrupted { loom_id, .. } => loom_id,
            LoomFact::ManualCompactionSucceeded { loom_id, .. } => loom_id,
            LoomFact::ManualCompactionFailed { loom_id, .. } => loom_id,
            LoomFact::SessionRestarted { loom_id, .. } => loom_id,
            LoomFact::RunAbandoned { loom_id, .. } => loom_id,
            LoomFact::TurnContinued { loom_id, .. } => loom_id,
            LoomFact::ContextWrapUpSteered { loom_id, .. } => loom_id,
            LoomFact::EventsDispatched { loom_id, .. } => loom_id,
            LoomFact::KnotEventsMissing { loom_id, .. } => loom_id,
            LoomFact::KnotParseWarning { loom_id, .. } => loom_id,
            LoomFact::DirectoryCreated { loom_id, .. } => loom_id,
            LoomFact::TasksIncomplete { loom_id, .. } => loom_id,
            LoomFact::BatchIncomplete { loom_id, .. } => loom_id,
        }
    }
}

impl Clone for LoomEvent {
    fn clone(&self) -> (copy: Self)
        ensures
            copy@ == self@,
    {
        match self {
            LoomEvent::LoomStarted { loom_id, timestamp } => LoomEvent::LoomStarted {
                loom_id: loom_id.clone(),
                timestamp: timestamp.clone(),
            },
            LoomEvent::LoomStopped { loom_id, timestamp } => LoomEvent::LoomStopped {
                loom_id: loom_id.clone(),
                timestamp: timestamp.clone(),
            },
            LoomEvent::KnotRegistered { loom_id, knot_id, timestamp } => LoomEvent::KnotRegistered {
                loom_id: loom_id.clone(),
                knot_id: knot_id.clone(),
                timestamp: timestamp.clone(),
            },
            LoomEvent::KnotDeregistered { loom_id, knot_id, timestamp } => LoomEvent::KnotDeregistered {
                loom_id: loom_id.clone(),
                knot_id: knot_id.clone(),
                timestamp: timestamp.clone(),
            },
            LoomEvent::KnotProcessing { loom_id, knot_id, strand_path, timestamp } => LoomEvent::KnotProcessing {
                loom_id: loom_id.clone(),
                knot_id: knot_id.clone(),
                strand_path: strand_path.clone(),
                timestamp: timestamp.clone(),
            },
            LoomEvent::KnotCompleted {
                loom_id,
                knot_id,
                strand_path,
                tie_off_path,
                timestamp,
            } => LoomEvent::KnotCompleted {
                loom_id: loom_id.clone(),
                knot_id: knot_id.clone(),
                strand_path: strand_path.clone(),
                tie_off_path: tie_off_path.clone(),
                timestamp: timestamp.clone(),
            },
            LoomEvent::KnotFailed { loom_id, knot_id, strand_path, error, timestamp } => LoomEvent::KnotFailed {
                loom_id: loom_id.clone(),
                knot_id: knot_id.clone(),
                strand_path: strand_path.clone(),
                error: error.clone(),
                timestamp: timestamp.clone(),
            },
            LoomEvent::StrandProcessed { loom_id, strand_path, error, timestamp } => LoomEvent::StrandProcessed {
                loom_id: loom_id.clone(),
                strand_path: strand_path.clone(),
                error: clone_opt(error),
                timestamp: timestamp.clone(),
            },
            LoomEvent::StrandIgnored { loom_id, knot_id, strand_path, reason, timestamp } => LoomEvent::StrandIgnored {
                loom_id: loom_id.clone(),
                knot_id: knot_id.clone(),
                strand_path: strand_path.clone(),
                reason: reason.clone(),
                timestamp: timestamp.clone(),
            },
            LoomEvent::StrandSkipped { loom_id, knot_id, strand_path, reason, timestamp } => LoomEvent::StrandSkipped {
                loom_id: loom_id.clone(),
                knot_id: knot_id.clone(),
                strand_path: strand_path.clone(),
                reason: reason.clone(),
                timestamp: timestamp.clone(),
            },
            LoomEvent::AgentInactivity {
                loom_id,
                knot_id,
                strand_path,
                session_id,
                silent_secs,
                window_secs,
                blocked_call,
                attempt,
                timestamp,
            } => LoomEvent::AgentInactivity {
                loom_id: loom_id.clone(),
                knot_id: knot_id.clone(),
                strand_path: strand_path.clone(),
                session_id: session_id.clone(),
                silent_secs: *silent_secs,
                window_secs: *window_secs,
                blocked_call: clone_opt(blocked_call),
                attempt: *attempt,
                timestamp: timestamp.clone(),
            },
            LoomEvent::SessionResumed {
                loom_id,
                knot_id,
                strand_path,
                session_id,
                attempt,
                timestamp,
            } => LoomEvent::SessionResumed {
                loom_id: loom_id.clone(),
                knot_id: knot_id.clone(),
                strand_path: strand_path.clone(),
                session_id: session_id.clone(),
                attempt: *attempt,
                timestamp: timestamp.clone(),
            },
            LoomEvent::KnotEmptyResponse { loom_id, knot_id, strand_path, attempt, timestamp } => LoomEvent::KnotEmptyResponse {
                loom_id: loom_id.clone(),
                knot_id: knot_id.clone(),
                strand_path: strand_path.clone(),
                attempt: *attempt,
                timestamp: timestamp.clone(),
            },
            LoomEvent::CompactionStarted {
                loom_id,
                knot_id,
                strand_path,
                session_id,
                reason,
                attempt,
                timestamp,
            } => LoomEvent::CompactionStarted {
                loom_id: loom_id.clone(),
                knot_id: knot_id.clone(),
                strand_path: strand_path.clone(),
                session_id: session_id.clone(),
                reason: reason.clone(),
                attempt: *attempt,
                timestamp: timestamp.clone(),
            },
            LoomEvent::ContextCompacted {
                loom_id,
                knot_id,
                strand_path,
                session_id,
                reason,
                tokens_before,
                attempt,
                timestamp,
            } => LoomEvent::ContextCompacted {
                loom_id: loom_id.clone(),
                knot_id: knot_id.clone(),
                strand_path: strand_path.clone(),
                session_id: session_id.clone(),
                reason: reason.clone(),
                tokens_before: *tokens_before,
                attempt: *attempt,
                timestamp: timestamp.clone(),
            },
            LoomEvent::ContextCompactionFailed {
                loom_id,
                knot_id,
                strand_path,
                session_id,
                reason,
                error,
                aborted,
                attempt,
                timestamp,
            } => LoomEvent::ContextCompactionFailed {
                loom_id: loom_id.clone(),
                knot_id: knot_id.clone(),
                strand_path: strand_path.clone(),
                session_id: session_id.clone(),
                reason: reason.clone(),
                error: clone_opt(error),
                aborted: *aborted,
                attempt: *attempt,
                timestamp: timestamp.clone(),
            },
            LoomEvent::CompactionInterrupted {
                loom_id,
                knot_id,
                strand_path,
                session_id,
                reason,
                attempt,
                timestamp,
            } => LoomEvent::CompactionInterrupted {
                loom_id: loom_id.clone(),
                knot_id: knot_id.clone(),
                strand_path: strand_path.clone(),
                session_id: session_id.clone(),
                reason: reason.clone(),
                attempt: *attempt,
                timestamp: timestamp.clone(),
            },
            LoomEvent::ManualCompactionSucceeded {
                loom_id,
                knot_id,
                strand_path,
                session_id,
                tokens_before,
                attempt,
                timestamp,
            } => LoomEvent::ManualCompactionSucceeded {
                loom_id: loom_id.clone(),
                knot_id: knot_id.clone(),
                strand_path: strand_path.clone(),
                session_id: session_id.clone(),
                tokens_before: *tokens_before,
                attempt: *attempt,
                timestamp: timestamp.clone(),
            },
            LoomEvent::ManualCompactionFailed {
                loom_id,
                knot_id,
                strand_path,
                session_id,
                error,
                attempt,
                timestamp,
            } => LoomEvent::ManualCompactionFailed {
                loom_id: loom_id.clone(),
                knot_id: knot_id.clone(),
                strand_path: strand_path.clone(),
                session_id: session_id.clone(),
                error: error.clone(),
                attempt: *attempt,
                timestamp: timestamp.clone(),
            },
            LoomEvent::SessionRestarted {
                loom_id,
                knot_id,
                strand_path,
                session_id,
                attempt,
                timestamp,
            } => LoomEvent::SessionRestarted {
                loom_id: loom_id.clone(),
                knot_id: knot_id.clone(),
                strand_path: strand_path.clone(),
                session_id: session_id.clone(),
                attempt: *attempt,
                timestamp: timestamp.clone(),
            },
            LoomEvent::RunAbandoned { loom_id, knot_id, strand_path, session_id, timestamp } => LoomEvent::RunAbandoned {
                loom_id: loom_id.clone(),
                knot_id: knot_id.clone(),
                strand_path: strand_path.clone(),
                session_id: clone_opt(session_id),
                timestamp: timestamp.clone(),
            },
            LoomEvent::TurnContinued {
                loom_id,
                knot_id,
                strand_path,
                session_id,
                reason,
                attempt,
                timestamp,
            } => LoomEvent::TurnContinued {
                loom_id: loom_id.clone(),
                knot_id: knot_id.clone(),
                strand_path: strand_path.clone(),
                session_id: session_id.clone(),
                reason: reason.clone(),
                attempt: *attempt,
                timestamp: timestamp.clone(),
            },
            LoomEvent::ContextWrapUpSteered {
                loom_id,
                knot_id,
                strand_path,
                session_id,
                context_tokens,
                limit,
                attempt,
                mechanism,
                timestamp,
            } => LoomEvent::ContextWrapUpSteered {
                loom_id: loom_id.clone(),
                knot_id: knot_id.clone(),
                strand_path: strand_path.clone(),
                session_id: session_id.clone(),
                context_tokens: *context_tokens,
                limit: *limit,
                attempt: *attempt,
                mechanism: mechanism.clone(),
                timestamp: timestamp.clone(),
            },
            LoomEvent::EventsDispatched {
                loom_id,
                knot_id,
                strand_path,
                dispatches,
                timestamp,
            } => {
                LoomEvent::EventsDispatched {
                    loom_id: loom_id.clone(),
                    knot_id: knot_id.clone(),
                    strand_path: strand_path.clone(),
                    dispatches: clone_dispatches(dispatches),
                    timestamp: timestamp.clone(),
                }
            },
            LoomEvent::KnotEventsMissing {
                loom_id,
                knot_id,
                strand_path,
                expected_events,
                missing_events,
                timestamp,
            } => LoomEvent::KnotEventsMissing {
                loom_id: loom_id.clone(),
                knot_id: knot_id.clone(),
                strand_path: strand_path.clone(),
                expected_events: clone_texts(expected_events),
                missing_events: clone_texts(missing_events),
                timestamp: timestamp.clone(),
            },
            LoomEvent::KnotParseWarning { loom_id, knot_file_name, message, timestamp } => LoomEvent::KnotParseWarning {
                loom_id: loom_id.clone(),
                knot_file_name: knot_file_name.clone(),
                message: message.clone(),
                timestamp: timestamp.clone(),
            },
            LoomEvent::DirectoryCreated { loom_id, knot_id, directory, timestamp } => LoomEvent::DirectoryCreated {
                loom_id: loom_id.clone(),
                knot_id: knot_id.clone(),
                directory: directory.clone(),
                timestamp: timestamp.clone(),
            },
            LoomEvent::TasksIncomplete {
                loom_id,
                knot_id,
                strand_path,
                continuations,
                reason,
                budget_secs,
                batch_start_epoch,
                timestamp,
            } => LoomEvent::TasksIncomplete {
                loom_id: loom_id.clone(),
                knot_id: knot_id.clone(),
                strand_path: strand_path.clone(),
                continuations: *continuations,
                reason: reason.clone(),
                budget_secs: *budget_secs,
                batch_start_epoch: *batch_start_epoch,
                timestamp: timestamp.clone(),
            },
            LoomEvent::BatchIncomplete {
                loom_id,
                knot_id,
                reason,
                continuations,
                budget_secs,
                batch_start_epoch,
                timestamp,
            } => LoomEvent::BatchIncomplete {
                loom_id: loom_id.clone(),
                knot_id: knot_id.clone(),
                reason: reason.clone(),
                continuations: *continuations,
                budget_secs: *budget_secs,
                batch_start_epoch: *batch_start_epoch,
                timestamp: timestamp.clone(),
            },
        }
    }
}

fn clone_dispatches(dispatches: &Vec<(String, String, String, String)>) -> (copy: Vec<
    (String, String, String, String),
>)
    ensures
        copy@ == dispatches@,
{
    let mut copy: Vec<(String, String, String, String)> = Vec::new();
    for i in 0..dispatches.len()
        invariant
            copy@ == dispatches@.take(i as int),
    {
        let d = &dispatches[i];
        copy.push((d.0.clone(), d.1.clone(), d.2.clone(), d.3.clone()));
        assert(copy@ =~= dispatches@.take(i + 1));
    }
    assert(copy@ =~= dispatches@);
    copy
}

/// The loom an event belongs to: every event has one.
pub fn loom_id_of(event: &LoomEvent) -> (loom_id: &LoomId)
    ensures
        loom_id@ == event@.fact.loom_id(),
{
    match event {
        LoomEvent::LoomStarted { loom_id, .. }
        | LoomEvent::LoomStopped { loom_id, .. }
        | LoomEvent::KnotRegistered { loom_id, .. }
        | LoomEvent::KnotDeregistered { loom_id, .. }
        | LoomEvent::KnotProcessing { loom_id, .. }
        | LoomEvent::KnotCompleted { loom_id, .. }
        | LoomEvent::KnotFailed { loom_id, .. }
        | LoomEvent::StrandProcessed { loom_id, .. }
        | LoomEvent::StrandIgnored { loom_id, .. }
        | LoomEvent::StrandSkipped { loom_id, .. }
        | LoomEvent::AgentInactivity { loom_id, .. }
        | LoomEvent::SessionResumed { loom_id, .. }
        | LoomEvent::KnotEmptyResponse { loom_id, .. }
        | LoomEvent::CompactionStarted { loom_id, .. }
        | LoomEvent::ContextCompacted { loom_id, .. }
        | LoomEvent::ContextCompactionFailed { loom_id, .. }
        | LoomEvent::CompactionInterrupted { loom_id, .. }
        | LoomEvent::ManualCompactionSucceeded { loom_id, .. }
        | LoomEvent::ManualCompactionFailed { loom_id, .. }
        | LoomEvent::SessionRestarted { loom_id, .. }
        | LoomEvent::RunAbandoned { loom_id, .. }
        | LoomEvent::TurnContinued { loom_id, .. }
        | LoomEvent::ContextWrapUpSteered { loom_id, .. }
        | LoomEvent::EventsDispatched { loom_id, .. }
        | LoomEvent::KnotEventsMissing { loom_id, .. }
        | LoomEvent::KnotParseWarning { loom_id, .. }
        | LoomEvent::DirectoryCreated { loom_id, .. }
        | LoomEvent::TasksIncomplete { loom_id, .. }
        | LoomEvent::BatchIncomplete { loom_id, .. } => loom_id,
    }
}

// ── Rig events ─────────────────────────────────────────────────────────

/// An operational event of the whole rig.
#[derive(Debug, PartialEq, Eq)]
pub enum RigLogEvent {
    /// An agent session ran out of time.
    TimeoutExceeded {
        loom_id: LoomId,
        knot_id: KnotId,
        strand_path: StrandPath,
        error: String,
        timestamp: String,
    },
    /// The strand queue ran empty.
    QueueIdle { timestamp: String },
}

/// What a [`RigLogEvent`] reports, without the time at which it happened.
pub enum RigFact {
    TimeoutExceeded {
        loom_id: Seq<char>,
        knot_id: Seq<char>,
        strand_path: Seq<char>,
        error: Seq<char>,
    },
    QueueIdle,
}

/// Model of a [`RigLogEvent`].
pub struct RigLogEventView {
    pub fact: RigFact,
    pub timestamp: Seq<char>,
}

impl View for RigLogEvent {
    type V = RigLogEventView;

    open spec fn view(&self) -> RigLogEventView {
        match self {
            RigLogEvent::TimeoutExceeded { loom_id, knot_id, strand_path, error, timestamp } => {
                RigLogEventView {
                    fact: RigFact::TimeoutExceeded {
                        loom_id: loom_id@,
                        knot_id: knot_id@,
                        strand_path: strand_path@,
                        error: error@,
                    },
                    timestamp: timestamp@,
                }
            },
            RigLogEvent::QueueIdle { timestamp } => RigLogEventView {
                fact: RigFact::QueueIdle,
                timestamp: timestamp@,
            },
        }
    }
}

impl Clone for RigLogEvent {
    fn clone(&self) -> (copy: Self)
        ensures
            copy == *self,
    {
        match self {
            RigLogEvent::TimeoutExceeded { loom_id, knot_id, strand_path, error, timestamp } => {
                RigLogEvent::TimeoutExceeded {
                    loom_id: loom_id.clone(),
                    knot_id: knot_id.clone(),
                    strand_path: strand_path.clone(),
                    error: error.clone(),
                    timestamp: timestamp.clone(),
                }
            },
            RigLogEvent::QueueIdle { timestamp } => RigLogEvent::QueueIdle {
                timestamp: timestamp.clone(),
            },
        }
    }
}

// ── Strand events ──────────────────────────────────────────────────────

/// Something happened to a strand file that a knot watches.
#[derive(Debug, PartialEq, Eq)]
pub enum StrandEvent {
    /// The file is new.
    Created { loom_id: LoomId, knot_id: KnotId, strand_path: StrandPath },
    /// The file changed.
    Modified { loom_id: LoomId, knot_id: KnotId, strand_path: StrandPath },
    /// The file is gone.
    Deleted { loom_id: LoomId, knot_id: KnotId, strand_path: StrandPath },
}

/// The kind of a strand event.
#[derive(Debug, Clone, Copy, PartialEq, Eq, Structural)]
pub enum KnotEventType {
    /// A new strand was created.
    Created,
    /// An existing strand was modified.
    Modified,
    /// A strand was deleted.
    Deleted,
}

/// Model of a [`StrandEvent`].
pub struct StrandEventView {
    pub kind: KnotEventType,
    pub loom_id: Seq<char>,
    pub knot_id: Seq<char>,
    pub strand_path: Seq<char>,
}

impl View for StrandEvent {
    type V = StrandEventView;

    open spec fn view(&self) -> StrandEventView {
        match self {
            StrandEvent::Created { loom_id, knot_id, strand_path } => StrandEventView {
                kind: KnotEventType::Created,
                loom_id: loom_id@,
                knot_id: knot_id@,
                strand_path: strand_path@,
            },
            StrandEvent::Modified { loom_id, knot_id, strand_path } => StrandEventView {
                kind: KnotEventType::Modified,
                loom_id: loom_id@,
                knot_id: knot_id@,
                strand_path: strand_path@,
            },
            StrandEvent::Deleted { loom_id, knot_id, strand_path } => StrandEventView {
                kind: KnotEventType::Deleted,
                loom_id: loom_id@,
                knot_id: knot_id@,
                strand_path: strand_path@,
            },
        }
    }
}

impl Clone for StrandEvent {
    fn clone(&self) -> (copy: Self)
        ensures
            copy == *self,
    {
        match self {
            StrandEvent::Created { loom_id, knot_id, strand_path } => StrandEvent::Created {
                loom_id: loom_id.clone(),
                knot_id: knot_id.clone(),
                strand_path: strand_path.clone(),
            },
            StrandEvent::Modified { loom_id, knot_id, strand_path } => StrandEvent::Modified {
                loom_id: loom_id.clone(),
                knot_id: knot_id.clone(),
                strand_path: strand_path.clone(),
            },
            StrandEvent::Deleted { loom_id, knot_id, strand_path } => StrandEvent::Deleted {
                loom_id: loom_id.clone(),
                knot_id: knot_id.clone(),
                strand_path: strand_path.clone(),
            },
        }
    }
}

/// The label of a kind of strand event.
pub open spec fn kind_label(kind: KnotEventType) -> Seq<char> {
    match kind {
        KnotEventType::Created => "Created"@,
        KnotEventType::Modified => "Modified"@,
        KnotEventType::Deleted => "Deleted"@,
    }
}

impl KnotEventType {
    /// The label of this kind of strand event.
    pub fn label(self) -> (label: String)
        ensures
            label@ == kind_label(self),
    {
        match self {
            KnotEventType::Created => "Created".to_string(),
            KnotEventType::Modified => "Modified".to_string(),
            KnotEventType::Deleted => "Deleted".to_string(),
        }
    }
}

impl StrandEvent {
    /// The kind of the event.
    pub fn kind(&self) -> (kind: KnotEventType)
        ensures
            kind == self@.kind,
    {
        match self {
            StrandEvent::Created { .. } => KnotEventType::Created,
            StrandEvent::Modified { .. } => KnotEventType::Modified,
            StrandEvent::Deleted { .. } => KnotEventType::Deleted,
        }
    }

    /// The loom, knot and strand of the event.
    pub fn fields(&self) -> (fields: (&LoomId, &KnotId, &StrandPath))
        ensures
            fields.0@ == self@.loom_id,
            fields.1@ == self@.knot_id,
            fields.2@ == self@.strand_path,
    {
        match self {
            StrandEvent::Created { loom_id, knot_id, strand_path }
            | StrandEvent::Modified { loom_id, knot_id, strand_path }
            | StrandEvent::Deleted { loom_id, knot_id, strand_path } => {
                (loom_id, knot_id, strand_path)
            },
        }
    }
}

// ── Configuration events ───────────────────────────────────────────────

/// Something happened to the files that define looms and knots.
#[derive(Debug, PartialEq, Eq)]
pub enum ConfigEvent {
    /// A loom directory appeared.
    LoomAdded { loom_id: LoomId, loom_dir: String },
    /// A knot file appeared.
    KnotAdded { loom_id: LoomId, knot: Knot },
    /// A knot file changed.
    KnotModified { loom_id: LoomId, knot: Knot },
    /// A knot file is gone.
    KnotDeleted { loom_id: LoomId, knot_id: KnotId },
}

/// Model of a [`ConfigEvent`].
pub enum ConfigEventView {
    LoomAdded { loom_id: Seq<char>, loom_dir: Seq<char> },
    KnotAdded { loom_id: Seq<char>, knot: KnotView },
    KnotModified { loom_id: Seq<char>, knot: KnotView },
    KnotDeleted { loom_id: Seq<char>, knot_id: Seq<char> },
}

impl View for ConfigEvent {
    type V = ConfigEventView;

    open spec fn view(&self) -> ConfigEventView {
        match self {
            ConfigEvent::LoomAdded { loom_id, loom_dir } => ConfigEventView::LoomAdded {
                loom_id: loom_id@,
                loom_dir: loom_dir@,
            },
            ConfigEvent::KnotAdded { loom_id, knot } => ConfigEventView::KnotAdded {
                loom_id: loom_id@,
                knot: knot@,
            },
            ConfigEvent::KnotModified { loom_id, knot } => ConfigEventView::KnotModified {
                loom_id: loom_id@,
                knot: knot@,
            },
            ConfigEvent::KnotDeleted { loom_id, knot_id } => ConfigEventView::KnotDeleted {
                loom_id: loom_id@,
                knot_id: knot_id@,
            },
        }
    }
}

// ── Queued events ──────────────────────────────────────────────────────

/// The name of a queued event.
#[derive(Debug, PartialEq, Eq)]
pub struct PendingEventId(pub String);

impl View for PendingEventId {
    type V = Seq<char>;

    open spec fn view(&self) -> Seq<char> {
        self.0@
    }
}

impl Clone for PendingEventId {
    fn clone(&self) -> (copy: Self)
        ensures
            copy == *self,
    {
        PendingEventId(self.0.clone())
    }
}

/// A strand event that waits in the queue.
#[derive(Debug, PartialEq, Eq)]
pub struct PendingEvent {
    /// The event's name in the queue.
    pub id: PendingEventId,
    /// `Created`, `Modified` or `Deleted`.
    pub kind: String,
    /// The strand.
    pub strand_path: String,
    /// The loom the event is for.
    pub loom_id: String,
    /// The knot the event is for.
    pub knot_id: String,
}

/// Model of a [`PendingEvent`].
pub struct PendingEventView {
    pub id: Seq<char>,
    pub kind: Seq<char>,
    pub strand_path: Seq<char>,
    pub loom_id: Seq<char>,
    pub knot_id: Seq<char>,
}

impl View for PendingEvent {
    type V = PendingEventView;

    open spec fn view(&self) -> PendingEventView {
        PendingEventView {
            id: self.id@,
            kind: self.kind@,
            strand_path: self.strand_path@,
            loom_id: self.loom_id@,
            knot_id: self.knot_id@,
        }
    }
}

impl Clone for PendingEvent {
    fn clone(&self) -> (copy: Self)
        ensures
            copy == *self,
    {
        PendingEvent {
            id: self.id.clone(),
            kind: self.kind.clone(),
            strand_path: self.strand_path.clone(),
            loom_id: self.loom_id.clone(),
            knot_id: self.knot_id.clone(),
        }
    }
}

/// What makes two queued events the same: kind, strand, loom and knot.
pub struct DedupKey {
    pub kind: Seq<char>,
    pub strand_path: Seq<char>,
    pub loom_id: Seq<char>,
    pub knot_id: Seq<char>,
}

impl PendingEventView {
    /// The event's identity apart from its name in the queue.
    pub open spec fn dedup_key(self) -> DedupKey {
        DedupKey {
            kind: self.kind,
            strand_path: self.strand_path,
            loom_id: self.loom_id,
            knot_id: self.knot_id,
        }
    }
}

impl PendingEvent {
    /// Queue form of a strand event, under the given name.
    pub fn from_strand_event(event: &StrandEvent, id: PendingEventId) -> (pending: PendingEvent)
        ensures
            pending@ == pending_view(event@, id@),
    {
        let (loom_id, knot_id, strand_path) = event.fields();
        PendingEvent {
            id,
            kind: event.kind().label(),
            strand_path: strand_path.0.clone(),
            loom_id: loom_id.0.clone(),
            knot_id: knot_id.0.clone(),
        }
    }

    /// Whether two queued events are the same apart from their names.
    pub fn same_key(&self, other: &PendingEvent) -> (same: bool)
        ensures
            same == (self@.dedup_key() == other@.dedup_key()),
    {
        self.kind == other.kind && self.strand_path == other.strand_path && self.loom_id
            == other.loom_id && self.knot_id == other.knot_id
    }
}

/// The queue form of a strand event under a given name.
pub open spec fn pending_view(event: StrandEventView, id: Seq<char>) -> PendingEventView {
    PendingEventView {
        id,
        kind: kind_label(event.kind),
        strand_path: event.strand_path,
        loom_id: event.loom_id,
        knot_id: event.knot_id,
    }
}

/// What a queue hands out: an event, or the sign that no more will come.
#[derive(Debug, PartialEq, Eq)]
pub enum PendingEventOrShutdown {
    Event(PendingEvent),
    Shutdown,
}

/// A fact is about the loom it was given, whatever it tells.
pub proof fn facts_are_about_their_loom(fact: LoomFact, loom_id: Seq<char>)
    requires
        fact is LoomStarted && fact->LoomStarted_loom_id == loom_id
            || fact is LoomStopped && fact->LoomStopped_loom_id == loom_id
            || fact is KnotRegistered && fact->KnotRegistered_loom_id == loom_id
            || fact is KnotDeregistered && fact->KnotDeregistered_loom_id == loom_id
            || fact is KnotProcessing && fact->KnotProcessing_loom_id == loom_id
            || fact is KnotCompleted && fact->KnotCompleted_loom_id == loom_id
            || fact is KnotFailed && fact->KnotFailed_loom_id == loom_id
            || fact is StrandProcessed && fact->StrandProcessed_loom_id == loom_id
            || fact is StrandIgnored && fact->StrandIgnored_loom_id == loom_id
            || fact is StrandSkipped && fact->StrandSkipped_loom_id == loom_id
            || fact is AgentInactivity && fact->AgentInactivity_loom_id == loom_id
            || fact is SessionResumed && fact->SessionResumed_loom_id == loom_id
            || fact is KnotEmptyResponse && fact->KnotEmptyResponse_loom_id == loom_id
            || fact is CompactionStarted && fact->CompactionStarted_loom_id == loom_id
            || fact is ContextCompacted && fact->ContextCompacted_loom_id == loom_id
            || fact is ContextCompactionFailed && fact->ContextCompactionFailed_loom_id == loom_id
            || fact is CompactionInterrupted && fact->CompactionInterrupted_loom_id == loom_id
            || fact is ManualCompactionSucceeded && fact->ManualCompactionSucceeded_loom_id == loom_id
            || fact is ManualCompactionFailed && fact->ManualCompactionFailed_loom_id == loom_id
            || fact is SessionRestarted && fact->SessionRestarted_loom_id == loom_id
            || fact is RunAbandoned && fact->RunAbandoned_loom_id == loom_id
            || fact is TurnContinued && fact->TurnContinued_loom_id == loom_id
            || fact is ContextWrapUpSteered && fact->ContextWrapUpSteered_loom_id == loom_id
            || fact is EventsDispatched && fact->EventsDispatched_loom_id == loom_id
            || fact is KnotEventsMissing && fact->KnotEventsMissing_loom_id == loom_id
            || fact is KnotParseWarning && fact->KnotParseWarning_loom_id == loom_id
            || fact is DirectoryCreated && fact->DirectoryCreated_loom_id == loom_id
            || fact is TasksIncomplete && fact->TasksIncomplete_loom_id == loom_id
            || fact is BatchIncomplete && fact->BatchIncomplete_loom_id == loom_id,
    ensures
        fact.loom_id() == loom_id,
{
}

/// The kinds of strand events have labels of their own.
pub proof fn kinds_have_their_own_labels(a: KnotEventType, b: KnotEventType)
    ensures
        kind_label(a) == kind_label(b) <==> a == b,
        kind_label(KnotEventType::Created) == "Created"@,
        kind_label(KnotEventType::Modified) == "Modified"@,
        kind_label(KnotEventType::Deleted) == "Deleted"@,
{
    reveal_strlit("Created");
    reveal_strlit("Modified");
    reveal_strlit("Deleted");
    assert("Created"@.len() == 7 && "Modified"@.len() == 8 && "Deleted"@.len() == 7);
    assert("Created"@[0] == 'C' && "Deleted"@[0] == 'D');
}

/// The queue form of an event keeps what the event tells, under the name given.
pub proof fn queued_events_tell_the_same(event: StrandEventView, id: Seq<char>)
    ensures
        ({
            let pending = pending_view(event, id);
            &&& pending.id == id
            &&& pending.strand_path == event.strand_path
            &&& pending.loom_id == event.loom_id
            &&& pending.knot_id == event.knot_id
            &&& event.kind is Created ==> pending.kind == "Created"@
            &&& event.kind is Modified ==> pending.kind == "Modified"@
            &&& event.kind is Deleted ==> pending.kind == "Deleted"@
        }),
{
}

/// Two queued events are the same apart from their names exactly when kind,
/// strand, loom and knot are.
pub proof fn events_differ_in_what_they_tell(a: PendingEventView, b: PendingEventView)
    ensures
        a.dedup_key() == b.dedup_key() <==> a.kind == b.kind && a.strand_path == b.strand_path
            && a.loom_id == b.loom_id && a.knot_id == b.knot_id,
{
    let x = a.dedup_key();
    let y = b.dedup_key();
    if x == y {
        assert(x.kind == y.kind && x.strand_path == y.strand_path && x.loom_id == y.loom_id
            && x.knot_id == y.knot_id);
    }
}

/// A strand event is seen with its kind, loom, knot and strand.
pub proof fn strand_events_are_seen_in_full(event: StrandEvent)
    ensures
        match event {
            StrandEvent::Created { loom_id, knot_id, strand_path } => {
                &&& event@.kind is Created
                &&& event@.loom_id == loom_id.0@
                &&& event@.knot_id == knot_id.0@
                &&& event@.strand_path == strand_path.0@
            },
            StrandEvent::Modified { loom_id, knot_id, strand_path } => {
                &&& event@.kind is Modified
                &&& event@.loom_id == loom_id.0@
                &&& event@.knot_id == knot_id.0@
                &&& event@.strand_path == strand_path.0@
            },
            StrandEvent::Deleted { loom_id, knot_id, strand_path } => {
                &&& event@.kind is Deleted
                &&& event@.loom_id == loom_id.0@
                &&& event@.knot_id == knot_id.0@
                &&& event@.strand_path == strand_path.0@
            },
        },
{
}

/// A configuration event is seen as what it is, with its loom and its knot.
pub proof fn config_events_are_seen_in_full(event: ConfigEvent)
    ensures
        event is LoomAdded <==> event@ is LoomAdded,
        event is KnotAdded <==> event@ is KnotAdded,
        event is KnotModified <==> event@ is KnotModified,
        event is KnotDeleted <==> event@ is KnotDeleted,
        event is LoomAdded ==> event@->LoomAdded_loom_id == event->LoomAdded_loom_id.0@
            && event@->loom_dir == event->loom_dir@,
        event is KnotAdded ==> event@->KnotAdded_loom_id == event->KnotAdded_loom_id.0@
            && event@->KnotAdded_knot == event->KnotAdded_knot@,
        event is KnotModified ==> event@->KnotModified_loom_id == event->KnotModified_loom_id.0@
            && event@->KnotModified_knot == event->KnotModified_knot@,
        event is KnotDeleted ==> event@->KnotDeleted_loom_id == event->KnotDeleted_loom_id.0@
            && event@->knot_id == event->knot_id.0@,
{
}

} // verus!
