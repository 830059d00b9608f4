//! What can go wrong at a port.

use crate::entities::LoomId;
use crate::text;
use crate::text::clone_opt;
use vstd::prelude::*;
use vstd::string::*;

verus! {

/// Errors that can occur when calling port methods.
#[derive(Debug, PartialEq, Eq)]
pub enum PortError {
    /// A loom was not found in the repository.
    LoomNotFound(LoomId),
    /// Failed to scan a rig directory.
    RigScanFailed(String),
    /// Failed to save a loom to the repository.
    LoomSaveFailed(String),
    /// Failed to list registered looms.
    LoomListFailed(String),
    /// Failed to derive knot status from the loom's run activity.
    KnotStatusDeriveFailed(String),
    /// Failed to open the loom activity log.
    LoomLogOpenFailed(String),
    /// Failed to append an event to the loom log.
    LoomLogAppendFailed(String),
    /// Failed to read events from the loom log.
    LoomLogReadFailed(String),
    /// Failed to watch a path for file events.
    EventWatchFailed(String),
    /// Failed to unwatch a path for file events.
    EventUnwatchFailed(String),
    /// Agent execution failed.
    AgentExecutionFailed {
        message: String,
        session_id: Option<String>,
    },
    /// The agent CLI binary was not found.
    CommandNotFound(String),
    /// Agent execution exceeded the configured timeout.
    Timeout {
        message: String,
        session_id: Option<String>,
    },
    /// The agent session ended without a final response. No deadline was
    /// exceeded: the session simply stopped. It can be entered again when
    /// a session is known.
    AgentNoResponse {
        message: String,
        session_id: Option<String>,
    },
    /// The session's context does not fit the model window, even after
    /// compaction. Entering the session again cannot help.
    ContextLimitReached {
        message: String,
        session_id: Option<String>,
    },
    /// The agent died in the middle of a compaction. An explicit
    /// compaction can still save the session, when it is known.
    CompactionInterrupted {
        message: String,
        reason: String,
        session_id: Option<String>,
    },
    /// An explicit compaction could not shrink the context below the
    /// model window. Entering the session again would overflow again.
    ManualCompactionFailed {
        message: String,
        session_id: Option<String>,
    },
    /// The agent was silent for the inactivity window and was stopped.
    /// A fresh restart helps even when no session is known.
    AgentInactivity {
        message: String,
        silent_secs: u64,
        window_secs: u64,
        blocked_call: Option<String>,
        session_id: Option<String>,
    },
    /// The session's context crossed the wrap-up limit and was stopped.
    WaterMarkStop {
        session_id: Option<String>,
    },
    /// Failed to write tie-off output.
    TieOffWriteFailed(String),
    /// An agent profile was not found.
    ProfileNotFound(String),
    /// A profile's model alias was not found in the model registry.
    ModelRefNotFound(String),
    /// Failed to scan the profiles directory.
    ProfileScanFailed(String),
    /// Failed to record a rig-level event.
    RigLogWriteFailed(String),
    /// Failed to read rig-level events.
    RigLogReadFailed(String),
    /// Failed to create a git commit.
    GitCommitFailed(String),
    /// Failed to write the state file.
    StateWriteFailed(String),
    /// Failed to check strand file validity.
    StrandCheckFailed(String),
    /// Failed to dispatch an agent event to a consumer.
    EventDispatchFailed(String),
    /// Failed to read or write a persisted event file.
    EventStoreFailed(String),
}

/// Model of a [`PortError`].
pub enum PortErrorView {
    LoomNotFound(Seq<char>),
    RigScanFailed(Seq<char>),
    LoomSaveFailed(Seq<char>),
    LoomListFailed(Seq<char>),
    KnotStatusDeriveFailed(Seq<char>),
    LoomLogOpenFailed(Seq<char>),
    LoomLogAppendFailed(Seq<char>),
    LoomLogReadFailed(Seq<char>),
    EventWatchFailed(Seq<char>),
    EventUnwatchFailed(Seq<char>),
    AgentExecutionFailed { message: Seq<char>, session_id: Option<Seq<char>> },
    CommandNotFound(Seq<char>),
    Timeout { message: Seq<char>, session_id: Option<Seq<char>> },
    AgentNoResponse { message: Seq<char>, session_id: Option<Seq<char>> },
    ContextLimitReached { message: Seq<char>, session_id: Option<Seq<char>> },
    CompactionInterrupted { message: Seq<char>, reason: Seq<char>, session_id: Option<Seq<char>> },
    ManualCompactionFailed { message: Seq<char>, session_id: Option<Seq<char>> },
    AgentInactivity {
        message: Seq<char>,
        silent_secs: u64,
        window_secs: u64,
        blocked_call: Option<Seq<char>>,
        session_id: Option<Seq<char>>,
    },
    WaterMarkStop { session_id: Option<Seq<char>> },
    TieOffWriteFailed(Seq<char>),
    ProfileNotFound(Seq<char>),
    ModelRefNotFound(Seq<char>),
    ProfileScanFailed(Seq<char>),
    RigLogWriteFailed(Seq<char>),
    RigLogReadFailed(Seq<char>),
    GitCommitFailed(Seq<char>),
    StateWriteFailed(Seq<char>),
    StrandCheckFailed(Seq<char>),
    EventDispatchFailed(Seq<char>),
    EventStoreFailed(Seq<char>),
}

impl View for PortError {
    type V = PortErrorView;

    open spec fn view(&self) -> PortErrorView {
        match self {
            PortError::LoomNotFound(id) => PortErrorView::LoomNotFound(id@),
            PortError::RigScanFailed(m) => PortErrorView::RigScanFailed(m@),
            PortError::LoomSaveFailed(m) => PortErrorView::LoomSaveFailed(m@),
            PortError::LoomListFailed(m) => PortErrorView::LoomListFailed(m@),
            PortError::KnotStatusDeriveFailed(m) => PortErrorView::KnotStatusDeriveFailed(m@),
            PortError::LoomLogOpenFailed(m) => PortErrorView::LoomLogOpenFailed(m@),
            PortError::LoomLogAppendFailed(m) => PortErrorView::LoomLogAppendFailed(m@),
            PortError::LoomLogReadFailed(m) => PortErrorView::LoomLogReadFailed(m@),
            PortError::EventWatchFailed(m) => PortErrorView::EventWatchFailed(m@),
            PortError::EventUnwatchFailed(m) => PortErrorView::EventUnwatchFailed(m@),
            PortError::AgentExecutionFailed { message, session_id } => PortErrorView::AgentExecutionFailed {
                message: message@,
                session_id: text::opt_text(*session_id),
            },
            PortError::CommandNotFound(m) => PortErrorView::CommandNotFound(m@),
            PortError::Timeout { message, session_id } => PortErrorView::Timeout {
                message: message@,
                session_id: text::opt_text(*session_id),
            },
            PortError::AgentNoResponse { message, session_id } => PortErrorView::AgentNoResponse {
                message: message@,
                session_id: text::opt_text(*session_id),
            },
            PortError::ContextLimitReached { message, session_id } => PortErrorView::ContextLimitReached {
                message: message@,
                session_id: text::opt_text(*session_id),
            },
            PortError::CompactionInterrupted { message, reason, session_id } => PortErrorView::CompactionInterrupted {
                message: message@,
                reason: reason@,
                session_id: text::opt_text(*session_id),
            },
            PortError::ManualCompactionFailed { message, session_id } => PortErrorView::ManualCompactionFailed {
                message: message@,
                session_id: text::opt_text(*session_id),
            },
            PortError::AgentInactivity { message, silent_secs, window_secs, blocked_call, session_id } => PortErrorView::AgentInactivity {
                message: message@,
                silent_secs: *silent_secs,
                window_secs: *window_secs,
                blocked_call: text::opt_text(*blocked_call),
                session_id: text::opt_text(*session_id),
            },
            PortError::WaterMarkStop { session_id } => PortErrorView::WaterMarkStop {
                session_id: text::opt_text(*session_id),
            },
            PortError::TieOffWriteFailed(m) => PortErrorView::TieOffWriteFailed(m@),
            PortError::ProfileNotFound(m) => PortErrorView::ProfileNotFound(m@),
            PortError::ModelRefNotFound(m) => PortErrorView::ModelRefNotFound(m@),
            PortError::ProfileScanFailed(m) => PortErrorView::ProfileScanFailed(m@),
            PortError::RigLogWriteFailed(m) => PortErrorView::RigLogWriteFailed(m@),
            PortError::RigLogReadFailed(m) => PortErrorView::RigLogReadFailed(m@),
            PortError::GitCommitFailed(m) => PortErrorView::GitCommitFailed(m@),
            PortError::StateWriteFailed(m) => PortErrorView::StateWriteFailed(m@),
            PortError::StrandCheckFailed(m) => PortErrorView::StrandCheckFailed(m@),
            PortError::EventDispatchFailed(m) => PortErrorView::EventDispatchFailed(m@),
            PortError::EventStoreFailed(m) => PortErrorView::EventStoreFailed(m@),
        }
    }
}

impl Clone for PortError {
    fn clone(&self) -> (copy: Self)
        ensures
            copy == *self,
    {
        match self {
            PortError::LoomNotFound(id) => PortError::LoomNotFound(id.clone()),
            PortError::RigScanFailed(m) => PortError::RigScanFailed(m.clone()),
            PortError::LoomSaveFailed(m) => PortError::LoomSaveFailed(m.clone()),
            PortError::LoomListFailed(m) => PortError::LoomListFailed(m.clone()),
            PortError::KnotStatusDeriveFailed(m) => PortError::KnotStatusDeriveFailed(m.clone()),
            PortError::LoomLogOpenFailed(m) => PortError::LoomLogOpenFailed(m.clone()),
            PortError::LoomLogAppendFailed(m) => PortError::LoomLogAppendFailed(m.clone()),
            PortError::LoomLogReadFailed(m) => PortError::LoomLogReadFailed(m.clone()),
            PortError::EventWatchFailed(m) => PortError::EventWatchFailed(m.clone()),
            PortError::EventUnwatchFailed(m) => PortError::EventUnwatchFailed(m.clone()),
            PortError::AgentExecutionFailed { message, session_id } => PortError::AgentExecutionFailed {
                message: message.clone(),
                session_id: clone_opt(session_id),
            },
            PortError::CommandNotFound(m) => PortError::CommandNotFound(m.clone()),
            PortError::Timeout { message, session_id } => PortError::Timeout {
                message: message.clone(),
                session_id: clone_opt(session_id),
            },
            PortError::AgentNoResponse { message, session_id } => PortError::AgentNoResponse {
                message: message.clone(),
                session_id: clone_opt(session_id),
            },
            PortError::ContextLimitReached { message, session_id } => PortError::ContextLimitReached {
                message: message.clone(),
                session_id: clone_opt(session_id),
            },
            PortError::CompactionInterrupted { message, reason, session_id } => PortError::CompactionInterrupted {
                message: message.clone(),
                reason: reason.clone(),
                session_id: clone_opt(session_id),
            },
            PortError::ManualCompactionFailed { message, session_id } => PortError::ManualCompactionFailed {
                message: message.clone(),
                session_id: clone_opt(session_id),
            },
            PortError::AgentInactivity { message, silent_secs, window_secs, blocked_call, session_id } => PortError::AgentInactivity {
                message: message.clone(),
                silent_secs: *silent_secs,
                window_secs: *window_secs,
                blocked_call: clone_opt(blocked_call),
                session_id: clone_opt(session_id),
            },
            PortError::WaterMarkStop { session_id } => PortError::WaterMarkStop {
                session_id: clone_opt(session_id),
            },
            PortError::TieOffWriteFailed(m) => PortError::TieOffWriteFailed(m.clone()),
            PortError::ProfileNotFound(m) => PortError::ProfileNotFound(m.clone()),
            PortError::ModelRefNotFound(m) => PortError::ModelRefNotFound(m.clone()),
            PortError::ProfileScanFailed(m) => PortError::ProfileScanFailed(m.clone()),
            PortError::RigLogWriteFailed(m) => PortError::RigLogWriteFailed(m.clone()),
            PortError::RigLogReadFailed(m) => PortError::RigLogReadFailed(m.clone()),
            PortError::GitCommitFailed(m) => PortError::GitCommitFailed(m.clone()),
            PortError::StateWriteFailed(m) => PortError::StateWriteFailed(m.clone()),
            PortError::StrandCheckFailed(m) => PortError::StrandCheckFailed(m.clone()),
            PortError::EventDispatchFailed(m) => PortError::EventDispatchFailed(m.clone()),
            PortError::EventStoreFailed(m) => PortError::EventStoreFailed(m.clone()),
        }
    }
}

impl PortErrorView {
    /// The error as one line of text.
    pub open spec fn display(self) -> Seq<char> {
        match self {
            PortErrorView::LoomNotFound(id) => "loom '"@ + id + "' not found"@,
            PortErrorView::RigScanFailed(m) => "rig scan failed: "@ + m,
            PortErrorView::LoomSaveFailed(m) => "loom save failed: "@ + m,
            PortErrorView::LoomListFailed(m) => "loom list failed: "@ + m,
            PortErrorView::KnotStatusDeriveFailed(m) => "knot status derive failed: "@ + m,
            PortErrorView::LoomLogOpenFailed(m) => "loom log open failed: "@ + m,
            PortErrorView::LoomLogAppendFailed(m) => "loom log append failed: "@ + m,
            PortErrorView::LoomLogReadFailed(m) => "loom log read failed: "@ + m,
            PortErrorView::EventWatchFailed(m) => "event watch failed: "@ + m,
            PortErrorView::EventUnwatchFailed(m) => "event unwatch failed: "@ + m,
            PortErrorView::AgentExecutionFailed { message, .. } => "agent execution failed: "@ + message,
            PortErrorView::CommandNotFound(m) => "command not found: "@ + m,
            PortErrorView::Timeout { message, .. } => "timeout: "@ + message,
            PortErrorView::AgentNoResponse { message, .. } => "no final response: "@ + message,
            PortErrorView::ContextLimitReached { message, .. } => "context limit reached: "@ + message,
            PortErrorView::CompactionInterrupted { message, .. } => "compaction interrupted: "@ + message,
            PortErrorView::ManualCompactionFailed { message, .. } => "manual compaction failed: "@ + message,
            PortErrorView::AgentInactivity { message, .. } => "inactivity: "@ + message,
            PortErrorView::WaterMarkStop { .. } => "water-mark stop (context usage crossed limit)"@,
            PortErrorView::TieOffWriteFailed(m) => "tie-off write failed: "@ + m,
            PortErrorView::ProfileNotFound(m) => "agent profile '"@ + m + "' not found"@,
            PortErrorView::ModelRefNotFound(m) => "model-ref '"@ + m + "' not found in rig/models.yml"@,
            PortErrorView::ProfileScanFailed(m) => "profile scan failed: "@ + m,
            PortErrorView::RigLogWriteFailed(m) => "rig-log write failed: "@ + m,
            PortErrorView::RigLogReadFailed(m) => "rig-log read failed: "@ + m,
            PortErrorView::GitCommitFailed(m) => "git commit failed: "@ + m,
            PortErrorView::StateWriteFailed(m) => "state write failed: "@ + m,
            PortErrorView::StrandCheckFailed(m) => "strand check failed: "@ + m,
            PortErrorView::EventDispatchFailed(m) => "event dispatch failed: "@ + m,
            PortErrorView::EventStoreFailed(m) => "event store failed: "@ + m,
        }
    }

    /// The session the error carries, if it carries one.
    pub open spec fn session_id(self) -> Option<Seq<char>> {
        match self {
            PortErrorView::AgentExecutionFailed { session_id, .. } => session_id,
            PortErrorView::Timeout { session_id, .. } => session_id,
            PortErrorView::AgentNoResponse { session_id, .. } => session_id,
            PortErrorView::ContextLimitReached { session_id, .. } => session_id,
            PortErrorView::CompactionInterrupted { session_id, .. } => session_id,
            PortErrorView::ManualCompactionFailed { session_id, .. } => session_id,
            PortErrorView::AgentInactivity { session_id, .. } => session_id,
            PortErrorView::WaterMarkStop { session_id, .. } => session_id,
            _ => None,
        }
    }

    /// Whether another attempt can follow the error.
    pub open spec fn resumable(self) -> bool {
        match self {
            PortErrorView::CompactionInterrupted { session_id, .. } => session_id is Some,
            PortErrorView::Timeout { .. } => true,
            PortErrorView::AgentExecutionFailed { .. } => true,
            PortErrorView::AgentNoResponse { .. } => true,
            PortErrorView::AgentInactivity { .. } => true,
            PortErrorView::WaterMarkStop { .. } => true,
            _ => false,
        }
    }
}

/// Text between a prefix and a suffix.
fn framed(prefix: &str, text: &str, suffix: &str) -> (framed: String)
    ensures
        framed@ == prefix@ + text@ + suffix@,
{
    let mut framed = prefix.to_string();
    framed.append(text);
    framed.append(suffix);
    framed
}

/// Text behind a prefix.
fn prefixed(prefix: &str, text: &str) -> (prefixed: String)
    ensures
        prefixed@ == prefix@ + text@,
{
    let mut prefixed = prefix.to_string();
    prefixed.append(text);
    prefixed
}

impl PortError {
    /// The error as one line of text.
    pub fn display(&self) -> (line: String)
        ensures
            line@ == self@.display(),
    {
        match self {
            PortError::LoomNotFound(id) => framed("loom '", id.0.as_str(), "' not found"),
            PortError::RigScanFailed(m) => prefixed("rig scan failed: ", m.as_str()),
            PortError::LoomSaveFailed(m) => prefixed("loom save failed: ", m.as_str()),
            PortError::LoomListFailed(m) => prefixed("loom list failed: ", m.as_str()),
            PortError::KnotStatusDeriveFailed(m) => prefixed("knot status derive failed: ", m.as_str()),
            PortError::LoomLogOpenFailed(m) => prefixed("loom log open failed: ", m.as_str()),
            PortError::LoomLogAppendFailed(m) => prefixed("loom log append failed: ", m.as_str()),
            PortError::LoomLogReadFailed(m) => prefixed("loom log read failed: ", m.as_str()),
            PortError::EventWatchFailed(m) => prefixed("event watch failed: ", m.as_str()),
            PortError::EventUnwatchFailed(m) => prefixed("event unwatch failed: ", m.as_str()),
            PortError::AgentExecutionFailed { message, .. } => {
                prefixed("agent execution failed: ", message.as_str())
            },
            PortError::CommandNotFound(m) => prefixed("command not found: ", m.as_str()),
            PortError::Timeout { message, .. } => {
                prefixed("timeout: ", message.as_str())
            },
            PortError::AgentNoResponse { message, .. } => {
                prefixed("no final response: ", message.as_str())
            },
            PortError::ContextLimitReached { message, .. } => {
                prefixed("context limit reached: ", message.as_str())
            },
            PortError::CompactionInterrupted { message, .. } => {
                prefixed("compaction interrupted: ", message.as_str())
            },
            PortError::ManualCompactionFailed { message, .. } => {
                prefixed("manual compaction failed: ", message.as_str())
            },
            PortError::AgentInactivity { message, .. } => {
                prefixed("inactivity: ", message.as_str())
            },
            PortError::WaterMarkStop { .. } => {
                "water-mark stop (context usage crossed limit)".to_string()
            },
            PortError::TieOffWriteFailed(m) => prefixed("tie-off write failed: ", m.as_str()),
            PortError::ProfileNotFound(m) => framed("agent profile '", m.as_str(), "' not found"),
            PortError::ModelRefNotFound(m) => framed("model-ref '", m.as_str(), "' not found in rig/models.yml"),
            PortError::ProfileScanFailed(m) => prefixed("profile scan failed: ", m.as_str()),
            PortError::RigLogWriteFailed(m) => prefixed("rig-log write failed: ", m.as_str()),
            PortError::RigLogReadFailed(m) => prefixed("rig-log read failed: ", m.as_str()),
            PortError::GitCommitFailed(m) => prefixed("git commit failed: ", m.as_str()),
            PortError::StateWriteFailed(m) => prefixed("state write failed: ", m.as_str()),
            PortError::StrandCheckFailed(m) => prefixed("strand check failed: ", m.as_str()),
            PortError::EventDispatchFailed(m) => prefixed("event dispatch failed: ", m.as_str()),
            PortError::EventStoreFailed(m) => prefixed("event store failed: ", m.as_str()),
        }
    }

    /// The session the error carries, if it carries one.
    pub fn session_id(&self) -> (session_id: Option<&String>)
        ensures
            self@.session_id() == (match session_id {
                Some(s) => Some(s@),
                None => None,
            }),
    {
        match self {
            PortError::AgentExecutionFailed { session_id, .. }
            | PortError::Timeout { session_id, .. }
            | PortError::AgentNoResponse { session_id, .. }
            | PortError::ContextLimitReached { session_id, .. }
            | PortError::CompactionInterrupted { session_id, .. }
            | PortError::ManualCompactionFailed { session_id, .. }
            | PortError::AgentInactivity { session_id, .. }
            | PortError::WaterMarkStop { session_id, .. } => session_id.as_ref(),
            _ => None,
        }
    }

    /// Whether another attempt can follow the error.
    ///
    /// A context that does not fit, before or after an explicit compaction,
    /// is final. An interrupted compaction can be followed up only when the
    /// session is known.
    pub fn is_resumable(&self) -> (resumable: bool)
        ensures
            resumable == self@.resumable(),
    {
        match self {
            PortError::CompactionInterrupted { session_id, .. } => session_id.is_some(),
            PortError::Timeout { .. }
            | PortError::AgentExecutionFailed { .. }
            | PortError::AgentNoResponse { .. }
            | PortError::AgentInactivity { .. }
            | PortError::WaterMarkStop { .. } => true,
            _ => false,
        }
    }
}

/// Whether a failed invocation can be followed up in the same session: a
/// session is known, and the error is resumable.
pub fn is_session_resumable(session_id: &Option<String>, error: &PortError) -> (resumable: bool)
    ensures
        resumable == (session_id is Some && error@.resumable()),
{
    session_id.is_some() && error.is_resumable()
}

/// An error that rules out another attempt in the same session is final
/// for [`is_session_resumable`] whatever the session.
pub proof fn final_errors_never_resume(message: Seq<char>, session_id: Option<Seq<char>>)
    ensures
        !(PortErrorView::ContextLimitReached { message, session_id }).resumable(),
        !(PortErrorView::ManualCompactionFailed { message, session_id }).resumable(),
        !PortErrorView::CommandNotFound(message).resumable(),
{
}

/// Which errors another attempt can follow: a failed execution, a timeout, a
/// missing response, an inactivity kill and a water-mark stop always, an
/// interrupted compaction in a known session, and no other.
pub proof fn resumable_errors_are_these(error: PortErrorView)
    ensures
        error.resumable() <==> {
            ||| error is AgentExecutionFailed
            ||| error is Timeout
            ||| error is AgentNoResponse
            ||| error is AgentInactivity
            ||| error is WaterMarkStop
            ||| error is CompactionInterrupted && error->CompactionInterrupted_session_id is Some
        },
{
}

/// An error names the session it was given, whatever its kind, and one that
/// is given none names none.
pub proof fn errors_name_their_session(
    message: Seq<char>,
    reason: Seq<char>,
    silent_secs: u64,
    window_secs: u64,
    blocked_call: Option<Seq<char>>,
    sid: Option<Seq<char>>,
)
    ensures
        (PortErrorView::AgentExecutionFailed { message, session_id: sid }).session_id() == sid,
        (PortErrorView::Timeout { message, session_id: sid }).session_id() == sid,
        (PortErrorView::AgentNoResponse { message, session_id: sid }).session_id() == sid,
        (PortErrorView::ContextLimitReached { message, session_id: sid }).session_id() == sid,
        (PortErrorView::CompactionInterrupted { message, reason, session_id: sid }).session_id()
            == sid,
        (PortErrorView::ManualCompactionFailed { message, session_id: sid }).session_id() == sid,
        (PortErrorView::AgentInactivity {
            message,
            silent_secs,
            window_secs,
            blocked_call,
            session_id: sid,
        }).session_id() == sid,
        (PortErrorView::WaterMarkStop { session_id: sid }).session_id() == sid,
        PortErrorView::CommandNotFound(message).session_id() is None,
        PortErrorView::LoomNotFound(message).session_id() is None,
        PortErrorView::LoomLogAppendFailed(message).session_id() is None,
        PortErrorView::ProfileNotFound(message).session_id() is None,
{
}

/// An error's text tells what it was about in full: the message at its end, or
/// the name of what is missing between quotes. The session is not told.
pub proof fn errors_tell_their_message(error: PortErrorView, message: Seq<char>)
    requires
        match error {
            PortErrorView::LoomNotFound(m) => m == message,
            PortErrorView::RigScanFailed(m) => m == message,
            PortErrorView::LoomSaveFailed(m) => m == message,
            PortErrorView::LoomListFailed(m) => m == message,
            PortErrorView::KnotStatusDeriveFailed(m) => m == message,
            PortErrorView::LoomLogOpenFailed(m) => m == message,
            PortErrorView::LoomLogAppendFailed(m) => m == message,
            PortErrorView::LoomLogReadFailed(m) => m == message,
            PortErrorView::EventWatchFailed(m) => m == message,
            PortErrorView::EventUnwatchFailed(m) => m == message,
            PortErrorView::AgentExecutionFailed { message: m, .. } => m == message,
            PortErrorView::CommandNotFound(m) => m == message,
            PortErrorView::Timeout { message: m, .. } => m == message,
            PortErrorView::AgentNoResponse { message: m, .. } => m == message,
            PortErrorView::ContextLimitReached { message: m, .. } => m == message,
            PortErrorView::CompactionInterrupted { message: m, .. } => m == message,
            PortErrorView::ManualCompactionFailed { message: m, .. } => m == message,
            PortErrorView::AgentInactivity { message: m, .. } => m == message,
            PortErrorView::WaterMarkStop { .. } => false,
            PortErrorView::TieOffWriteFailed(m) => m == message,
            PortErrorView::ProfileNotFound(m) => m == message,
            PortErrorView::ModelRefNotFound(m) => m == message,
            PortErrorView::ProfileScanFailed(m) => m == message,
            PortErrorView::RigLogWriteFailed(m) => m == message,
            PortErrorView::RigLogReadFailed(m) => m == message,
            PortErrorView::GitCommitFailed(m) => m == message,
            PortErrorView::StateWriteFailed(m) => m == message,
            PortErrorView::StrandCheckFailed(m) => m == message,
            PortErrorView::EventDispatchFailed(m) => m == message,
            PortErrorView::EventStoreFailed(m) => m == message,
        },
    ensures
        match error {
            PortErrorView::LoomNotFound(_) => error.display() == "loom '"@ + message
                + "' not found"@,
            PortErrorView::ProfileNotFound(_) => error.display() == "agent profile '"@ + message
                + "' not found"@,
            PortErrorView::ModelRefNotFound(_) => error.display() == "model-ref '"@ + message
                + "' not found in rig/models.yml"@,
            PortErrorView::RigScanFailed(_) => error.display() == "rig scan failed: "@ + message,
            PortErrorView::LoomSaveFailed(_) => error.display() == "loom save failed: "@ + message,
            PortErrorView::LoomListFailed(_) => error.display() == "loom list failed: "@ + message,
            PortErrorView::KnotStatusDeriveFailed(_) => error.display() == "knot status derive failed: "@ + message,
            PortErrorView::LoomLogOpenFailed(_) => error.display() == "loom log open failed: "@ + message,
            PortErrorView::LoomLogAppendFailed(_) => error.display() == "loom log append failed: "@ + message,
            PortErrorView::LoomLogReadFailed(_) => error.display() == "loom log read failed: "@ + message,
            PortErrorView::EventWatchFailed(_) => error.display() == "event watch failed: "@ + message,
            PortErrorView::EventUnwatchFailed(_) => error.display() == "event unwatch failed: "@ + message,
            PortErrorView::AgentExecutionFailed { .. } => error.display() == "agent execution failed: "@ + message,
            PortErrorView::CommandNotFound(_) => error.display() == "command not found: "@ + message,
            PortErrorView::Timeout { .. } => error.display() == "timeout: "@ + message,
            PortErrorView::AgentNoResponse { .. } => error.display() == "no final response: "@ + message,
            PortErrorView::ContextLimitReached { .. } => error.display() == "context limit reached: "@ + message,
            PortErrorView::CompactionInterrupted { .. } => error.display() == "compaction interrupted: "@ + message,
            PortErrorView::ManualCompactionFailed { .. } => error.display() == "manual compaction failed: "@ + message,
            PortErrorView::AgentInactivity { .. } => error.display() == "inactivity: "@ + message,
            PortErrorView::TieOffWriteFailed(_) => error.display() == "tie-off write failed: "@ + message,
            PortErrorView::ProfileScanFailed(_) => error.display() == "profile scan failed: "@ + message,
            PortErrorView::RigLogWriteFailed(_) => error.display() == "rig-log write failed: "@ + message,
            PortErrorView::RigLogReadFailed(_) => error.display() == "rig-log read failed: "@ + message,
            PortErrorView::GitCommitFailed(_) => error.display() == "git commit failed: "@ + message,
            PortErrorView::StateWriteFailed(_) => error.display() == "state write failed: "@ + message,
            PortErrorView::StrandCheckFailed(_) => error.display() == "strand check failed: "@ + message,
            PortErrorView::EventDispatchFailed(_) => error.display() == "event dispatch failed: "@ + message,
            PortErrorView::EventStoreFailed(_) => error.display() == "event store failed: "@ + message,
            PortErrorView::WaterMarkStop { .. } => true,
        },
{
}

} // verus!
