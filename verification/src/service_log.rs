//! Service log lines.
//!
//! Every event is one line: the name of the event, then `key=value` fields.
//! Optional fields are left out when they are absent, except where clearing
//! is the news. A line break in a value becomes a space, so that a line stays
//! one line. An event's own timestamp is not part of its line.

use crate::entities::{KnotId, LoomId, StrandPath};
use crate::events::{LoomEvent, LoomFact, RigFact, RigLogEvent};
use crate::rig_state::{
    KnotField, KnotUpdateView, ProfileField, ProfileUpdateView, RigState, RigStateLoom,
    RigStateLoomView, RigStateStrandQueueEntryView, RigStateView, StateChange, StateChangeView,
};
use crate::text;
use crate::text::{decimal_text, join_texts, one_line_text};
use vstd::prelude::*;
use vstd::string::*;

verus! {

/// How often a task list is handed over to a further run at most.
pub const MAX_CONTINUATIONS: u32 = 10;

// ── Fields ─────────────────────────────────────────────────────────────

/// A field that is left out when it is absent.
pub open spec fn opt_field(key: Seq<char>, value: Option<Seq<char>>) -> Seq<char> {
    match value {
        Some(v) => key + text::one_line(v),
        None => Seq::empty(),
    }
}

/// A number field that is left out when it is absent.
pub open spec fn opt_number(key: Seq<char>, value: Option<u64>) -> Seq<char> {
    match value {
        Some(n) => key + text::decimal(n as nat),
        None => Seq::empty(),
    }
}

/// A field of seconds that is left out when it is absent.
pub open spec fn opt_seconds(key: Seq<char>, value: Option<u64>) -> Seq<char> {
    match value {
        Some(n) => key + text::decimal(n as nat) + "'s"@,
        None => Seq::empty(),
    }
}

/// A truth value as text.
pub open spec fn bool_text(value: bool) -> Seq<char> {
    if value {
        "true"@
    } else {
        "false"@
    }
}

/// The start of a line about a loom.
pub open spec fn loom_line(name: Seq<char>, loom_id: Seq<char>) -> Seq<char> {
    name + " loom="@ + text::one_line(loom_id)
}

/// The start of a line about a knot.
pub open spec fn knot_line(name: Seq<char>, loom_id: Seq<char>, knot_id: Seq<char>) -> Seq<char> {
    loom_line(name, loom_id) + " knot="@ + text::one_line(knot_id)
}

/// The start of a line about a strand.
pub open spec fn strand_line(
    name: Seq<char>,
    loom_id: Seq<char>,
    knot_id: Seq<char>,
    strand_path: Seq<char>,
) -> Seq<char> {
    knot_line(name, loom_id, knot_id) + " strand="@ + text::one_line(strand_path)
}

/// The start of a line about an agent session.
pub open spec fn session_line(
    name: Seq<char>,
    loom_id: Seq<char>,
    knot_id: Seq<char>,
    strand_path: Seq<char>,
    session_id: Seq<char>,
) -> Seq<char> {
    strand_line(name, loom_id, knot_id, strand_path) + " session="@ + text::one_line(session_id)
}

/// One `dispatch=` field for each dispatch.
pub open spec fn dispatch_fields(
    dispatches: Seq<(Seq<char>, Seq<char>, Seq<char>, Seq<char>)>,
) -> Seq<char>
    decreases dispatches.len(),
{
    if dispatches.len() == 0 {
        Seq::empty()
    } else {
        let (event_id, consumer_knot, consumer_loom, file_path) = dispatches.last();
        dispatch_fields(dispatches.drop_last()) + " dispatch="@ + text::one_line(event_id) + "→"@
            + text::one_line(consumer_loom) + "/"@ + text::one_line(consumer_knot) + ": "@
            + text::one_line(file_path)
    }
}

fn push_field(line: &mut String, key: &str, value: &str)
    ensures
        final(line)@ == old(line)@ + key@ + text::one_line(value@),
{
    line.append(key);
    line.append(one_line_text(value).as_str());
}

fn push_number(line: &mut String, key: &str, value: u128)
    ensures
        final(line)@ == old(line)@ + key@ + text::decimal(value as nat),
{
    line.append(key);
    line.append(decimal_text(value).as_str());
}

fn push_opt_field(line: &mut String, key: &str, value: &Option<String>)
    ensures
        final(line)@ == old(line)@ + opt_field(key@, text::opt_text(*value)),
{
    if let Some(v) = value {
        push_field(line, key, v.as_str());
    }
    assert(line@ =~= old(line)@ + opt_field(key@, text::opt_text(*value)));
}

fn push_opt_number(line: &mut String, key: &str, value: &Option<u64>)
    ensures
        final(line)@ == old(line)@ + opt_number(key@, *value),
{
    if let Some(n) = value {
        push_number(line, key, *n as u128);
    }
    assert(line@ =~= old(line)@ + opt_number(key@, *value));
}

fn push_opt_seconds(line: &mut String, key: &str, value: &Option<u64>)
    ensures
        final(line)@ == old(line)@ + opt_seconds(key@, *value),
{
    if let Some(n) = value {
        push_number(line, key, *n as u128);
        line.append("'s");
    }
    assert(line@ =~= old(line)@ + opt_seconds(key@, *value));
}

fn bool_str(value: bool) -> (text: &'static str)
    ensures
        text@ == bool_text(value),
{
    if value {
        "true"
    } else {
        "false"
    }
}

fn start_loom(name: &str, loom_id: &LoomId) -> (line: String)
    ensures
        line@ == loom_line(name@, loom_id@),
{
    let mut line = name.to_string();
    push_field(&mut line, " loom=", loom_id.0.as_str());
    line
}

fn start_knot(name: &str, loom_id: &LoomId, knot_id: &KnotId) -> (line: String)
    ensures
        line@ == knot_line(name@, loom_id@, knot_id@),
{
    let mut line = start_loom(name, loom_id);
    push_field(&mut line, " knot=", knot_id.0.as_str());
    line
}

fn start_strand(
    name: &str,
    loom_id: &LoomId,
    knot_id: &KnotId,
    strand_path: &StrandPath,
) -> (line: String)
    ensures
        line@ == strand_line(name@, loom_id@, knot_id@, strand_path@),
{
    let mut line = start_knot(name, loom_id, knot_id);
    push_field(&mut line, " strand=", strand_path.0.as_str());
    line
}

fn start_session(
    name: &str,
    loom_id: &LoomId,
    knot_id: &KnotId,
    strand_path: &StrandPath,
    session_id: &String,
) -> (line: String)
    ensures
        line@ == session_line(name@, loom_id@, knot_id@, strand_path@, session_id@),
{
    let mut line = start_strand(name, loom_id, knot_id, strand_path);
    push_field(&mut line, " session=", session_id.as_str());
    line
}

fn push_dispatches(line: &mut String, dispatches: &Vec<(String, String, String, String)>)
    ensures
        final(line)@ == old(line)@ + dispatch_fields(dispatches_view(dispatches@)),
{
    let ghost all = dispatches_view(dispatches@);
    assert(all.take(0) =~= Seq::empty());
    assert(line@ =~= old(line)@ + dispatch_fields(all.take(0)));
    for i in 0..dispatches.len()
        invariant
            all == dispatches_view(dispatches@),
            line@ == old(line)@ + dispatch_fields(all.take(i as int)),
    {
        let ghost before = line@;
        let d = &dispatches[i];
        push_field(line, " dispatch=", d.0.as_str());
        push_field(line, "→", d.2.as_str());
        push_field(line, "/", d.1.as_str());
        push_field(line, ": ", d.3.as_str());
        assert(all.take(i + 1).drop_last() =~= all.take(i as int));
        assert(all.take(i + 1).last() == (d.0@, d.1@, d.2@, d.3@));
        assert(line@ =~= old(line)@ + dispatch_fields(all.take(i + 1)));
    }
    assert(all.take(dispatches.len() as int) =~= all);
}

/// The model of a list of dispatches.
pub open spec fn dispatches_view(dispatches: Seq<(String, String, String, String)>) -> Seq<
    (Seq<char>, Seq<char>, Seq<char>, Seq<char>),
> {
    dispatches.map_values(|x: (String, String, String, String)| (x.0@, x.1@, x.2@, x.3@))
}

// ── Event lines ────────────────────────────────────────────────────────

/// The line for a loom event.
pub open spec fn loom_event_line(fact: LoomFact) -> Seq<char> {
    match fact {
        LoomFact::LoomStarted { loom_id } => {
            loom_line("LoomStarted"@, loom_id)
        },
        LoomFact::LoomStopped { loom_id } => {
            loom_line("LoomStopped"@, loom_id)
        },
        LoomFact::KnotRegistered { loom_id, knot_id } => {
            knot_line("KnotRegistered"@, loom_id, knot_id)
        },
        LoomFact::KnotDeregistered { loom_id, knot_id } => {
            knot_line("KnotDeregistered"@, loom_id, knot_id)
        },
        LoomFact::KnotProcessing { loom_id, knot_id, strand_path } => {
            strand_line("KnotProcessing"@, loom_id, knot_id, strand_path)
        },
        LoomFact::KnotCompleted { loom_id, knot_id, strand_path, tie_off_path } => {
            strand_line("KnotCompleted"@, loom_id, knot_id, strand_path) + " tie-off="@
                + text::one_line(tie_off_path)
        },
        LoomFact::KnotFailed { loom_id, knot_id, strand_path, error } => {
            strand_line("KnotFailed"@, loom_id, knot_id, strand_path) + " error="@ + text::one_line(error)
        },
        LoomFact::StrandProcessed { loom_id, strand_path, error } => {
            loom_line("StrandProcessed"@, loom_id) + " strand="@ + text::one_line(strand_path)
                + opt_field(" error="@, error)
        },
        LoomFact::StrandIgnored { loom_id, knot_id, strand_path, reason } => {
            strand_line("StrandIgnored"@, loom_id, knot_id, strand_path) + " reason="@ + text::one_line(reason)
        },
        LoomFact::StrandSkipped { loom_id, knot_id, strand_path, reason } => {
            strand_line("StrandSkipped"@, loom_id, knot_id, strand_path) + " reason="@ + text::one_line(reason)
        },
        LoomFact::AgentInactivity {
            loom_id,
            knot_id,
            strand_path,
            session_id,
            silent_secs,
            window_secs,
            blocked_call,
            attempt,
        } => {
            session_line("AgentInactivity"@, loom_id, knot_id, strand_path, session_id)
                + " silent="@ + text::decimal(silent_secs as nat) + " window="@
                + text::decimal(window_secs as nat) + opt_field(" blocked-call="@, blocked_call)
                + " attempt="@ + text::decimal(attempt as nat)
        },
        LoomFact::SessionResumed { loom_id, knot_id, strand_path, session_id, attempt } => {
            session_line("SessionResumed"@, loom_id, knot_id, strand_path, session_id)
                + " attempt="@ + text::decimal(attempt as nat)
        },
        LoomFact::KnotEmptyResponse { loom_id, knot_id, strand_path, attempt } => {
            strand_line("KnotEmptyResponse"@, loom_id, knot_id, strand_path) + " attempt="@
                + text::decimal(attempt as nat)
        },
        LoomFact::CompactionStarted {
            loom_id,
            knot_id,
            strand_path,
            session_id,
            reason,
            attempt,
        } => {
            session_line("CompactionStarted"@, loom_id, knot_id, strand_path, session_id)
                + " reason="@ + text::one_line(reason) + " attempt="@ + text::decimal(attempt as nat)
        },
        LoomFact::ContextCompacted {
            loom_id,
            knot_id,
            strand_path,
            session_id,
            reason,
            tokens_before,
            attempt,
        } => {
            session_line("ContextCompacted"@, loom_id, knot_id, strand_path, session_id)
                + " reason="@ + text::one_line(reason) + opt_number(" tokens-before="@, tokens_before)
                + " attempt="@ + text::decimal(attempt as nat)
        },
        LoomFact::ContextCompactionFailed {
            loom_id,
            knot_id,
            strand_path,
            session_id,
            reason,
            error,
            aborted,
            attempt,
        } => {
            session_line("ContextCompactionFailed"@, loom_id, knot_id, strand_path, session_id)
                + " reason="@ + text::one_line(reason) + opt_field(" error="@, error) + " aborted="@
                + bool_text(aborted) + " attempt="@ + text::decimal(attempt as nat)
        },
        LoomFact::CompactionInterrupted {
            loom_id,
            knot_id,
            strand_path,
            session_id,
            reason,
            attempt,
        } => {
            session_line("CompactionInterrupted"@, loom_id, knot_id, strand_path, session_id)
                + " reason="@ + text::one_line(reason) + " attempt="@ + text::decimal(attempt as nat)
        },
        LoomFact::ManualCompactionSucceeded {
            loom_id,
            knot_id,
            strand_path,
            session_id,
            tokens_before,
            attempt,
        } => {
            session_line("ManualCompactionSucceeded"@, loom_id, knot_id, strand_path, session_id)
                + " tokens-before="@ + text::decimal(tokens_before as nat) + " attempt="@
                + text::decimal(attempt as nat)
        },
        LoomFact::ManualCompactionFailed {
            loom_id,
            knot_id,
            strand_path,
            session_id,
            error,
            attempt,
        } => {
            session_line("ManualCompactionFailed"@, loom_id, knot_id, strand_path, session_id)
                + " error="@ + text::one_line(error) + " attempt="@ + text::decimal(attempt as nat)
        },
        LoomFact::SessionRestarted { loom_id, knot_id, strand_path, session_id, attempt } => {
            session_line("SessionRestarted"@, loom_id, knot_id, strand_path, session_id)
                + " attempt="@ + text::decimal(attempt as nat)
        },
        LoomFact::RunAbandoned { loom_id, knot_id, strand_path, session_id } => {
            strand_line("RunAbandoned"@, loom_id, knot_id, strand_path)
                + opt_field(" session="@, session_id)
        },
        LoomFact::TurnContinued {
            loom_id,
            knot_id,
            strand_path,
            session_id,
            reason,
            attempt,
        } => {
            session_line("TurnContinued"@, loom_id, knot_id, strand_path, session_id)
                + " reason="@ + text::one_line(reason) + " attempt="@ + text::decimal(attempt as nat)
        },
        LoomFact::ContextWrapUpSteered {
            loom_id,
            knot_id,
            strand_path,
            session_id,
            context_tokens,
            limit,
            attempt,
            ..
        } => {
            session_line("ContextWrapUpSteered"@, loom_id, knot_id, strand_path, session_id)
                + " context-tokens="@ + text::decimal(context_tokens as nat) + " limit="@
                + text::decimal(limit as nat) + " attempt="@ + text::decimal(attempt as nat)
        },
        LoomFact::EventsDispatched { loom_id, knot_id, strand_path, dispatches } => {
            strand_line("EventsDispatched"@, loom_id, knot_id, strand_path)
                + dispatch_fields(dispatches)
        },
        LoomFact::KnotEventsMissing {
            loom_id,
            knot_id,
            strand_path,
            expected_events,
            missing_events,
        } => {
            strand_line("KnotEventsMissing"@, loom_id, knot_id, strand_path) + " expected="@
                + text::one_line(text::joined(expected_events, ","@)) + " missing="@
                + text::one_line(text::joined(missing_events, ","@))
        },
        LoomFact::KnotParseWarning { loom_id, knot_file_name, message } => {
            loom_line("KnotParseWarning"@, loom_id) + " file="@ + text::one_line(knot_file_name)
                + " message="@ + text::one_line(message)
        },
        LoomFact::DirectoryCreated { loom_id, knot_id, directory } => {
            knot_line("DirectoryCreated"@, loom_id, knot_id) + " directory="@ + text::one_line(directory)
        },
        LoomFact::TasksIncomplete {
            loom_id,
            knot_id,
            strand_path,
            continuations,
            reason,
            budget_secs,
            batch_start_epoch,
        } => {
            strand_line("TasksIncomplete"@, loom_id, knot_id, strand_path) + " hop="@
                + text::decimal(continuations as nat) + "/"@
                + text::decimal(MAX_CONTINUATIONS as nat) + " reason="@ + text::one_line(reason)
                + opt_seconds(" remaining="@, budget_secs)
                + opt_number(" batch-start="@, batch_start_epoch)
        },
        LoomFact::BatchIncomplete {
            loom_id,
            knot_id,
            reason,
            continuations,
            budget_secs,
            batch_start_epoch,
        } => {
            knot_line("BatchIncomplete"@, loom_id, knot_id) + " reason="@ + text::one_line(reason)
                + " continuations="@ + text::decimal(continuations as nat)
                + opt_seconds(" budget="@, budget_secs)
                + opt_number(" batch-start="@, batch_start_epoch)
        },
    }
}

/// Render the line for a loom event, without a leading timestamp.
///
/// For example `KnotProcessing loom=review-loom knot=review
/// strand=strands/prd.md`.
pub fn render_loom_event_line(event: &LoomEvent) -> (line: String)
    ensures
        line@ == loom_event_line(event@.fact),
        text::unbroken(line@),
{
    proof {
        loom_event_is_one_line(event@.fact);
    }
    match event {
        LoomEvent::LoomStarted { loom_id, .. } => start_loom("LoomStarted", loom_id),
        LoomEvent::LoomStopped { loom_id, .. } => start_loom("LoomStopped", loom_id),
        LoomEvent::KnotRegistered { loom_id, knot_id, .. } => {
            start_knot("KnotRegistered", loom_id, knot_id)
        },
        LoomEvent::KnotDeregistered { loom_id, knot_id, .. } => {
            start_knot("KnotDeregistered", loom_id, knot_id)
        },
        LoomEvent::KnotProcessing { loom_id, knot_id, strand_path, .. } => {
            start_strand("KnotProcessing", loom_id, knot_id, strand_path)
        },
        LoomEvent::KnotCompleted { loom_id, knot_id, strand_path, tie_off_path, .. } => {
            let mut line = start_strand("KnotCompleted", loom_id, knot_id, strand_path);
            push_field(&mut line, " tie-off=", tie_off_path.0.as_str());
            line
        },
        LoomEvent::KnotFailed { loom_id, knot_id, strand_path, error, .. } => {
            let mut line = start_strand("KnotFailed", loom_id, knot_id, strand_path);
            push_field(&mut line, " error=", error.as_str());
            line
        },
        LoomEvent::StrandProcessed { loom_id, strand_path, error, .. } => {
            let mut line = start_loom("StrandProcessed", loom_id);
            push_field(&mut line, " strand=", strand_path.0.as_str());
            push_opt_field(&mut line, " error=", error);
            line
        },
        LoomEvent::StrandIgnored { loom_id, knot_id, strand_path, reason, .. } => {
            let mut line = start_strand("StrandIgnored", loom_id, knot_id, strand_path);
            push_field(&mut line, " reason=", reason.as_str());
            line
        },
        LoomEvent::StrandSkipped { loom_id, knot_id, strand_path, reason, .. } => {
            let mut line = start_strand("StrandSkipped", loom_id, knot_id, strand_path);
            push_field(&mut line, " reason=", reason.as_str());
            line
        },
        LoomEvent::AgentInactivity {
            loom_id,
            knot_id,
            strand_path,
            session_id,
            silent_secs,
            window_secs,
            blocked_call,
            attempt,
            ..
        } => {
            let mut line = start_session("AgentInactivity", loom_id, knot_id, strand_path, session_id);
            push_number(&mut line, " silent=", *silent_secs as u128);
            push_number(&mut line, " window=", *window_secs as u128);
            push_opt_field(&mut line, " blocked-call=", blocked_call);
            push_number(&mut line, " attempt=", *attempt as u128);
            line
        },
        LoomEvent::SessionResumed { loom_id, knot_id, strand_path, session_id, attempt, .. } => {
            let mut line = start_session("SessionResumed", loom_id, knot_id, strand_path, session_id);
            push_number(&mut line, " attempt=", *attempt as u128);
            line
        },
        LoomEvent::KnotEmptyResponse { loom_id, knot_id, strand_path, attempt, .. } => {
            let mut line = start_strand("KnotEmptyResponse", loom_id, knot_id, strand_path);
            push_number(&mut line, " attempt=", *attempt as u128);
            line
        },
        LoomEvent::CompactionStarted {
            loom_id,
            knot_id,
            strand_path,
            session_id,
            reason,
            attempt,
            ..
        } => {
            let mut line = start_session("CompactionStarted", loom_id, knot_id, strand_path, session_id);
            push_field(&mut line, " reason=", reason.as_str());
            push_number(&mut line, " attempt=", *attempt as u128);
            line
        },
        LoomEvent::ContextCompacted {
            loom_id,
            knot_id,
            strand_path,
            session_id,
            reason,
            tokens_before,
            attempt,
            ..
        } => {
            let mut line = start_session("ContextCompacted", loom_id, knot_id, strand_path, session_id);
            push_field(&mut line, " reason=", reason.as_str());
            push_opt_number(&mut line, " tokens-before=", tokens_before);
            push_number(&mut line, " attempt=", *attempt as u128);
            line
        },
        LoomEvent::ContextCompactionFailed {
            loom_id,
            knot_id,
            strand_path,
            session_id,
            reason,
            error,
            aborted,
            attempt,
            ..
        } => {
            let mut line = start_session("ContextCompactionFailed", loom_id, knot_id, strand_path, session_id);
            push_field(&mut line, " reason=", reason.as_str());
            push_opt_field(&mut line, " error=", error);
            line.append(" aborted=");
            line.append(bool_str(*aborted));
            push_number(&mut line, " attempt=", *attempt as u128);
            line
        },
        LoomEvent::CompactionInterrupted {
            loom_id,
            knot_id,
            strand_path,
            session_id,
            reason,
            attempt,
            ..
        } => {
            let mut line = start_session("CompactionInterrupted", loom_id, knot_id, strand_path, session_id);
            push_field(&mut line, " reason=", reason.as_str());
            push_number(&mut line, " attempt=", *attempt as u128);
            line
        },
        LoomEvent::ManualCompactionSucceeded {
            loom_id,
            knot_id,
            strand_path,
            session_id,
            tokens_before,
            attempt,
            ..
        } => {
            let mut line = start_session("ManualCompactionSucceeded", loom_id, knot_id, strand_path, session_id);
            push_number(&mut line, " tokens-before=", *tokens_before as u128);
            push_number(&mut line, " attempt=", *attempt as u128);
            line
        },
        LoomEvent::ManualCompactionFailed {
            loom_id,
            knot_id,
            strand_path,
            session_id,
            error,
            attempt,
            ..
        } => {
            let mut line = start_session("ManualCompactionFailed", loom_id, knot_id, strand_path, session_id);
            push_field(&mut line, " error=", error.as_str());
            push_number(&mut line, " attempt=", *attempt as u128);
            line
        },
        LoomEvent::SessionRestarted {
            loom_id,
            knot_id,
            strand_path,
            session_id,
            attempt,
            ..
        } => {
            let mut line = start_session("SessionRestarted", loom_id, knot_id, strand_path, session_id);
            push_number(&mut line, " attempt=", *attempt as u128);
            line
        },
        LoomEvent::RunAbandoned { loom_id, knot_id, strand_path, session_id, .. } => {
            let mut line = start_strand("RunAbandoned", loom_id, knot_id, strand_path);
            push_opt_field(&mut line, " session=", session_id);
            line
        },
        LoomEvent::TurnContinued {
            loom_id,
            knot_id,
            strand_path,
            session_id,
            reason,
            attempt,
            ..
        } => {
            let mut line = start_session("TurnContinued", loom_id, knot_id, strand_path, session_id);
            push_field(&mut line, " reason=", reason.as_str());
            push_number(&mut line, " attempt=", *attempt as u128);
            line
        },
        LoomEvent::ContextWrapUpSteered {
            loom_id,
            knot_id,
            strand_path,
            session_id,
            context_tokens,
            limit,
            attempt,
            ..
        } => {
            let mut line = start_session("ContextWrapUpSteered", loom_id, knot_id, strand_path, session_id);
            push_number(&mut line, " context-tokens=", *context_tokens as u128);
            push_number(&mut line, " limit=", *limit as u128);
            push_number(&mut line, " attempt=", *attempt as u128);
            line
        },
        LoomEvent::EventsDispatched { loom_id, knot_id, strand_path, dispatches, .. } => {
            let mut line = start_strand("EventsDispatched", loom_id, knot_id, strand_path);
            push_dispatches(&mut line, dispatches);
            line
        },
        LoomEvent::KnotEventsMissing {
            loom_id,
            knot_id,
            strand_path,
            expected_events,
            missing_events,
            ..
        } => {
            let mut line = start_strand("KnotEventsMissing", loom_id, knot_id, strand_path);
            push_field(&mut line, " expected=", join_texts(expected_events, ",").as_str());
            push_field(&mut line, " missing=", join_texts(missing_events, ",").as_str());
            line
        },
        LoomEvent::KnotParseWarning { loom_id, knot_file_name, message, .. } => {
            let mut line = start_loom("KnotParseWarning", loom_id);
            push_field(&mut line, " file=", knot_file_name.as_str());
            push_field(&mut line, " message=", message.as_str());
            line
        },
        LoomEvent::DirectoryCreated { loom_id, knot_id, directory, .. } => {
            let mut line = start_knot("DirectoryCreated", loom_id, knot_id);
            push_field(&mut line, " directory=", directory.as_str());
            line
        },
        LoomEvent::TasksIncomplete {
            loom_id,
            knot_id,
            strand_path,
            continuations,
            reason,
            budget_secs,
            batch_start_epoch,
            ..
        } => {
            let mut line = start_strand("TasksIncomplete", loom_id, knot_id, strand_path);
            push_number(&mut line, " hop=", *continuations as u128);
            push_number(&mut line, "/", MAX_CONTINUATIONS as u128);
            push_field(&mut line, " reason=", reason.as_str());
            push_opt_seconds(&mut line, " remaining=", budget_secs);
            push_opt_number(&mut line, " batch-start=", batch_start_epoch);
            line
        },
        LoomEvent::BatchIncomplete {
            loom_id,
            knot_id,
            reason,
            continuations,
            budget_secs,
            batch_start_epoch,
            ..
        } => {
            let mut line = start_knot("BatchIncomplete", loom_id, knot_id);
            push_field(&mut line, " reason=", reason.as_str());
            push_number(&mut line, " continuations=", *continuations as u128);
            push_opt_seconds(&mut line, " budget=", budget_secs);
            push_opt_number(&mut line, " batch-start=", batch_start_epoch);
            line
        },
    }
}

/// The line for a rig event.
pub open spec fn rig_event_line(fact: RigFact) -> Seq<char> {
    match fact {
        RigFact::TimeoutExceeded { loom_id, knot_id, strand_path, error } => {
            strand_line("TimeoutExceeded"@, loom_id, knot_id, strand_path) + " error="@
                + text::one_line(error)
        },
        RigFact::QueueIdle => "QueueIdle"@,
    }
}

/// Render the line for a rig event, without a leading timestamp.
pub fn render_rig_event_line(event: &RigLogEvent) -> (line: String)
    ensures
        line@ == rig_event_line(event@.fact),
        text::unbroken(line@),
{
    proof {
        rig_event_is_one_line(event@.fact);
    }
    match event {
        RigLogEvent::TimeoutExceeded { loom_id, knot_id, strand_path, error, .. } => {
            let mut line = start_strand("TimeoutExceeded", loom_id, knot_id, strand_path);
            push_field(&mut line, " error=", error.as_str());
            line
        },
        RigLogEvent::QueueIdle { .. } => "QueueIdle".to_string(),
    }
}

// ── State lines ────────────────────────────────────────────────────────

/// The number of knots in all looms together.
pub open spec fn knot_total(looms: Seq<RigStateLoomView>) -> nat
    decreases looms.len(),
{
    if looms.len() == 0 {
        0
    } else {
        knot_total(looms.drop_last()) + looms.last().knots.len()
    }
}

/// The number of knots in the first loom with the name: zero where there is
/// no such loom.
pub open spec fn knots_of(looms: Seq<RigStateLoomView>, id: Seq<char>) -> nat
    decreases looms.len(),
{
    if looms.len() == 0 {
        0
    } else if looms[0].id == id {
        looms[0].knots.len()
    } else {
        knots_of(looms.drop_first(), id)
    }
}

/// The line for the first snapshot after startup.
pub open spec fn baseline_line(snapshot: RigStateView) -> Seq<char> {
    "[KNOT][STATE] initial snapshot looms="@ + text::decimal(snapshot.looms.len()) + " knots="@
        + text::decimal(knot_total(snapshot.looms)) + " profiles="@ + text::decimal(
        snapshot.profiles.len(),
    ) + " queue="@ + text::decimal(snapshot.strand_queue.len())
}

/// The line for a new loom.
pub open spec fn loom_added_line(id: Seq<char>, looms: Seq<RigStateLoomView>) -> Seq<char> {
    "[KNOT][STATE] change loom+ "@ + text::one_line(id) + " ("@ + text::decimal(
        knots_of(looms, id),
    ) + " knots)"@
}

/// The line for a loom that is gone.
pub open spec fn loom_removed_line(id: Seq<char>) -> Seq<char> {
    "[KNOT][STATE] change loom- "@ + text::one_line(id)
}

/// The line for a new knot.
pub open spec fn knot_added_line(knot: (Seq<char>, Seq<char>)) -> Seq<char> {
    "[KNOT][STATE] change knot "@ + text::one_line(knot.0) + "/"@ + text::one_line(knot.1)
        + "+ (registered)"@
}

/// The line for a knot that is gone.
pub open spec fn knot_removed_line(knot: (Seq<char>, Seq<char>)) -> Seq<char> {
    "[KNOT][STATE] change knot "@ + text::one_line(knot.0) + "/"@ + text::one_line(knot.1)
        + "- (removed)"@
}

/// A field that was set or cleared: nothing where it was neither.
pub open spec fn set_or_cleared(
    name: Seq<char>,
    from: Option<Seq<char>>,
    to: Option<Seq<char>>,
) -> Option<Seq<char>> {
    match (from, to) {
        (_, Some(t)) => Some(name + "="@ + text::one_line(t)),
        (Some(f), None) => Some(name + " "@ + text::one_line(f) + "→ cleared"@),
        (None, None) => None,
    }
}

/// A change of a knot field.
pub open spec fn knot_field_text(
    change: (KnotField, Option<Seq<char>>, Option<Seq<char>>),
) -> Option<Seq<char>> {
    let (field, from, to) = change;
    match field {
        KnotField::Status => Some(
            "status "@ + (match from {
                Some(f) => text::one_line(f),
                None => "?"@,
            }) + "→"@ + (match to {
                Some(t) => text::one_line(t),
                None => "removed"@,
            }),
        ),
        KnotField::LastStrandPath => set_or_cleared("strand"@, from, to),
        KnotField::LastTieOffPath => set_or_cleared("tie-off"@, from, to),
        KnotField::LastError => set_or_cleared("error"@, from, to),
        KnotField::LastEventAt => set_or_cleared("event-at"@, from, to),
    }
}

/// The texts of those knot fields that changed.
pub open spec fn knot_parts(
    changes: Seq<(KnotField, Option<Seq<char>>, Option<Seq<char>>)>,
) -> Seq<Seq<char>>
    decreases changes.len(),
{
    if changes.len() == 0 {
        Seq::empty()
    } else {
        match knot_field_text(changes.last()) {
            Some(part) => knot_parts(changes.drop_last()).push(part),
            None => knot_parts(changes.drop_last()),
        }
    }
}

/// The line for a knot with changed fields.
pub open spec fn knot_updated_line(update: KnotUpdateView) -> Seq<char> {
    "[KNOT][STATE] change knot "@ + text::one_line(update.loom) + "/"@ + text::one_line(
        update.knot,
    ) + ": "@ + text::joined(knot_parts(update.field_changes), " "@)
}

/// The line for a new profile.
pub open spec fn profile_added_line(name: Seq<char>) -> Seq<char> {
    "[KNOT][STATE] change profile+ "@ + text::one_line(name) + " (added)"@
}

/// The line for a profile that is gone.
pub open spec fn profile_removed_line(name: Seq<char>) -> Seq<char> {
    "[KNOT][STATE] change profile- "@ + text::one_line(name) + " (removed)"@
}

/// The name of a profile field.
pub open spec fn profile_key(field: ProfileField) -> Seq<char> {
    match field {
        ProfileField::ModelRef => "model-ref"@,
        ProfileField::Provider => "provider"@,
        ProfileField::Model => "model"@,
        ProfileField::ThinkingLevel => "thinking-level"@,
        ProfileField::Timeout => "timeout"@,
    }
}

/// A change of a profile field: nothing where the value stayed.
pub open spec fn profile_field_text(
    change: (ProfileField, Option<Seq<char>>, Option<Seq<char>>),
) -> Option<Seq<char>> {
    let key = profile_key(change.0);
    match (change.1, change.2) {
        (Some(f), Some(t)) => if f == t {
            None
        } else {
            Some(key + " "@ + text::one_line(f) + "→"@ + text::one_line(t))
        },
        (Some(f), None) => Some(key + " "@ + text::one_line(f) + "→ cleared"@),
        (None, Some(t)) => Some(key + "="@ + text::one_line(t)),
        (None, None) => None,
    }
}

/// The texts of those profile fields that changed.
pub open spec fn profile_parts(
    changes: Seq<(ProfileField, Option<Seq<char>>, Option<Seq<char>>)>,
) -> Seq<Seq<char>>
    decreases changes.len(),
{
    if changes.len() == 0 {
        Seq::empty()
    } else {
        match profile_field_text(changes.last()) {
            Some(part) => profile_parts(changes.drop_last()).push(part),
            None => profile_parts(changes.drop_last()),
        }
    }
}

/// The line for a profile with changed fields.
pub open spec fn profile_updated_line(update: ProfileUpdateView) -> Seq<char> {
    "[KNOT][STATE] change profile "@ + text::one_line(update.name) + ": "@ + text::joined(
        profile_parts(update.field_changes),
        " "@,
    )
}

/// The line for a strand event that joined the queue.
pub open spec fn queue_added_line(entry: RigStateStrandQueueEntryView) -> Seq<char> {
    "[KNOT][STATE] change queue+ "@ + text::one_line(entry.strand_path) + " ("@ + text::one_line(
        entry.event_kind,
    ) + " "@ + text::one_line(entry.loom_id) + "/"@ + text::one_line(entry.knot_id) + ")"@
}

/// The line for a strand event that left the queue.
pub open spec fn queue_removed_line(entry: RigStateStrandQueueEntryView) -> Seq<char> {
    "[KNOT][STATE] change queue- "@ + text::one_line(entry.strand_path)
}

/// One line per changed aspect, in a fixed order.
pub open spec fn change_lines(change: StateChangeView, looms: Seq<RigStateLoomView>) -> Seq<
    Seq<char>,
> {
    change.looms_added.map_values(|id| loom_added_line(id, looms))
        + change.looms_removed.map_values(|id| loom_removed_line(id))
        + change.knots_added.map_values(|k| knot_added_line(k))
        + change.knots_removed.map_values(|k| knot_removed_line(k))
        + change.knot_updates.map_values(|u| knot_updated_line(u))
        + change.profiles_added.map_values(|name| profile_added_line(name))
        + change.profiles_removed.map_values(|name| profile_removed_line(name))
        + change.profile_updates.map_values(|u| profile_updated_line(u))
        + change.queue_added.map_values(|e| queue_added_line(e))
        + change.queue_removed.map_values(|e| queue_removed_line(e))
}

/// The lines for a state write.
pub open spec fn state_write_lines(
    first_write: bool,
    change: StateChangeView,
    snapshot: RigStateView,
) -> Seq<Seq<char>> {
    if first_write {
        seq![baseline_line(snapshot)]
    } else {
        change_lines(change, snapshot.looms)
    }
}

fn count_knots(looms: &Vec<RigStateLoom>) -> (total: u128)
    ensures
        total == knot_total(text::views(looms@)),
{
    let ghost all = text::views(looms@);
    let mut total: u128 = 0;
    for i in 0..looms.len()
        invariant
            all == text::views(looms@),
            total == knot_total(all.take(i as int)),
            total <= i * 0xffff_ffff_ffff_ffff,
    {
        assert(all.take(i + 1).drop_last() =~= all.take(i as int));
        assert(all.take(i + 1).last().knots.len() == looms@[i as int].knots@.len());
        assert(looms@[i as int].knots.len() <= 0xffff_ffff_ffff_ffff);
        total = total + looms[i].knots.len() as u128;
    }
    assert(all.take(looms.len() as int) =~= all);
    total
}

fn count_knots_of(looms: &Vec<RigStateLoom>, id: &String) -> (count: usize)
    ensures
        count == knots_of(text::views(looms@), id@),
{
    let ghost all = text::views(looms@);
    assert(all.skip(0) =~= all);
    for i in 0..looms.len()
        invariant
            all == text::views(looms@),
            knots_of(all, id@) == knots_of(all.skip(i as int), id@),
    {
        assert(all.skip(i as int)[0] == looms@[i as int]@);
        assert(all.skip(i as int).drop_first() =~= all.skip(i + 1));
        if looms[i].id == *id {
            return looms[i].knots.len();
        }
    }
    0
}

fn line_of(prefix: &str, text: &str, suffix: &str) -> (line: String)
    ensures
        line@ == prefix@ + text::one_line(text@) + suffix@,
{
    let mut line = String::new();
    push_field(&mut line, prefix, text);
    line.append(suffix);
    line
}

fn knot_line_of(loom: &str, knot: &str, suffix: &str) -> (line: String)
    ensures
        line@ == "[KNOT][STATE] change knot "@ + text::one_line(loom@) + "/"@ + text::one_line(knot@)
            + suffix@,
{
    let mut line = String::new();
    push_field(&mut line, "[KNOT][STATE] change knot ", loom);
    push_field(&mut line, "/", knot);
    line.append(suffix);
    line
}

fn set_or_cleared_text(name: &str, from: &Option<String>, to: &Option<String>) -> (part: Option<
    String,
>)
    ensures
        text::opt_text(part) == set_or_cleared(name@, text::opt_text(*from), text::opt_text(*to)),
{
    let mut part = name.to_string();
    match (from, to) {
        (_, Some(t)) => {
            push_field(&mut part, "=", t.as_str());
            Some(part)
        },
        (Some(f), None) => {
            push_field(&mut part, " ", f.as_str());
            part.append("→ cleared");
            Some(part)
        },
        (None, None) => None,
    }
}

/// Render the changes of a knot's fields, for example `status
/// idle→processing strand=strands/prd.md`.
pub fn render_knot_fields(
    changes: &Vec<(KnotField, Option<String>, Option<String>)>,
) -> (line: String)
    ensures
        line@ == text::joined(knot_parts(knot_changes_view(changes@)), " "@),
{
    broadcast use text::texts_push;

    let ghost all = knot_changes_view(changes@);
    let mut parts: Vec<String> = Vec::new();
    assert(text::texts(parts@) =~= knot_parts(all.take(0)));
    for i in 0..changes.len()
        invariant
            all == knot_changes_view(changes@),
            text::texts(parts@) == knot_parts(all.take(i as int)),
    {
        let (field, from, to) = &changes[i];
        assert(all.take(i + 1).drop_last() =~= all.take(i as int));
        assert(all.take(i + 1).last() == (*field, text::opt_text(*from), text::opt_text(*to)));
        let part = match field {
            KnotField::Status => {
                let mut part = "status ".to_string();
                match from {
                    Some(f) => part.append(one_line_text(f.as_str()).as_str()),
                    None => part.append("?"),
                }
                part.append("→");
                match to {
                    Some(t) => part.append(one_line_text(t.as_str()).as_str()),
                    None => part.append("removed"),
                }
                Some(part)
            },
            KnotField::LastStrandPath => set_or_cleared_text("strand", from, to),
            KnotField::LastTieOffPath => set_or_cleared_text("tie-off", from, to),
            KnotField::LastError => set_or_cleared_text("error", from, to),
            KnotField::LastEventAt => set_or_cleared_text("event-at", from, to),
        };
        if let Some(text) = part {
            parts.push(text);
        }
    }
    assert(all.take(changes.len() as int) =~= all);
    join_texts(&parts, " ")
}

/// The model of a knot's changed fields.
pub open spec fn knot_changes_view(
    changes: Seq<(KnotField, Option<String>, Option<String>)>,
) -> Seq<(KnotField, Option<Seq<char>>, Option<Seq<char>>)> {
    changes.map_values(
        |x: (KnotField, Option<String>, Option<String>)|
            (x.0, text::opt_text(x.1), text::opt_text(x.2)),
    )
}

/// The model of a profile's changed fields.
pub open spec fn profile_changes_view(
    changes: Seq<(ProfileField, Option<String>, Option<String>)>,
) -> Seq<(ProfileField, Option<Seq<char>>, Option<Seq<char>>)> {
    changes.map_values(
        |x: (ProfileField, Option<String>, Option<String>)|
            (x.0, text::opt_text(x.1), text::opt_text(x.2)),
    )
}

fn profile_key_str(field: ProfileField) -> (key: &'static str)
    ensures
        key@ == profile_key(field),
{
    match field {
        ProfileField::ModelRef => "model-ref",
        ProfileField::Provider => "provider",
        ProfileField::Model => "model",
        ProfileField::ThinkingLevel => "thinking-level",
        ProfileField::Timeout => "timeout",
    }
}

/// Render the changes of a profile's fields, for example `model gpt-4o→o3
/// thinking-level=xhigh`.
pub fn render_profile_fields(
    changes: &Vec<(ProfileField, Option<String>, Option<String>)>,
) -> (line: String)
    ensures
        line@ == text::joined(profile_parts(profile_changes_view(changes@)), " "@),
{
    broadcast use text::texts_push;

    let ghost all = profile_changes_view(changes@);
    let mut parts: Vec<String> = Vec::new();
    assert(text::texts(parts@) =~= profile_parts(all.take(0)));
    for i in 0..changes.len()
        invariant
            all == profile_changes_view(changes@),
            text::texts(parts@) == profile_parts(all.take(i as int)),
    {
        let (field, from, to) = &changes[i];
        assert(all.take(i + 1).drop_last() =~= all.take(i as int));
        assert(all.take(i + 1).last() == (*field, text::opt_text(*from), text::opt_text(*to)));
        let mut part = profile_key_str(*field).to_string();
        match (from, to) {
            (Some(f), Some(t)) => {
                if *f != *t {
                    push_field(&mut part, " ", f.as_str());
                    push_field(&mut part, "→", t.as_str());
                    parts.push(part);
                }
            },
            (Some(f), None) => {
                push_field(&mut part, " ", f.as_str());
                part.append("→ cleared");
                parts.push(part);
            },
            (None, Some(t)) => {
                push_field(&mut part, "=", t.as_str());
                parts.push(part);
            },
            (None, None) => {},
        }
    }
    assert(all.take(changes.len() as int) =~= all);
    join_texts(&parts, " ")
}

fn push_loom_lines(lines: &mut Vec<String>, change: &StateChange, looms: &Vec<RigStateLoom>)
    ensures
        text::texts(final(lines)@) == text::texts(old(lines)@)
            + change@.looms_added.map_values(|id| loom_added_line(id, text::views(looms@)))
            + change@.looms_removed.map_values(|id| loom_removed_line(id)),
{
    broadcast use text::texts_push;

    let ghost all = text::views(looms@);
    let ghost start = text::texts(lines@);
    let ghost added = change@.looms_added.map_values(|id| loom_added_line(id, all));
    let ghost removed = change@.looms_removed.map_values(|id| loom_removed_line(id));
    assert(start =~= start + added.take(0));
    for i in 0..change.looms_added.len()
        invariant
            all == text::views(looms@),
            added == change@.looms_added.map_values(|id| loom_added_line(id, all)),
            text::texts(lines@) == start + added.take(i as int),
    {
        let id = &change.looms_added[i];
        let mut line = line_of("[KNOT][STATE] change loom+ ", id.as_str(), " (");
        line.append(decimal_text(count_knots_of(looms, id) as u128).as_str());
        line.append(" knots)");
        assert(line@ == added[i as int]);
        lines.push(line);
        assert(start + added.take(i + 1) =~= (start + added.take(i as int)).push(added[i as int]));
    }
    assert(added.take(added.len() as int) =~= added);
    assert(start + added =~= start + added + removed.take(0));
    for i in 0..change.looms_removed.len()
        invariant
            removed == change@.looms_removed.map_values(|id| loom_removed_line(id)),
            text::texts(lines@) == start + added + removed.take(i as int),
    {
        let mut line = String::new();
        push_field(&mut line, "[KNOT][STATE] change loom- ", change.looms_removed[i].as_str());
        assert(line@ == removed[i as int]);
        lines.push(line);
        assert(start + added + removed.take(i + 1) =~= (start + added + removed.take(i as int)).push(
            removed[i as int],
        ));
    }
    assert(removed.take(removed.len() as int) =~= removed);
}

fn push_knot_lines(lines: &mut Vec<String>, change: &StateChange)
    ensures
        text::texts(final(lines)@) == text::texts(old(lines)@)
            + change@.knots_added.map_values(|k| knot_added_line(k))
            + change@.knots_removed.map_values(|k| knot_removed_line(k))
            + change@.knot_updates.map_values(|u| knot_updated_line(u)),
{
    broadcast use text::texts_push;

    let ghost start = text::texts(lines@);
    let ghost added = change@.knots_added.map_values(|k| knot_added_line(k));
    let ghost removed = change@.knots_removed.map_values(|k| knot_removed_line(k));
    let ghost updated = change@.knot_updates.map_values(|u| knot_updated_line(u));
    assert(start =~= start + added.take(0));
    for i in 0..change.knots_added.len()
        invariant
            added == change@.knots_added.map_values(|k| knot_added_line(k)),
            text::texts(lines@) == start + added.take(i as int),
    {
        let (loom, knot) = &change.knots_added[i];
        let line = knot_line_of(loom.as_str(), knot.as_str(), "+ (registered)");
        assert(line@ == added[i as int]);
        lines.push(line);
        assert(start + added.take(i + 1) =~= (start + added.take(i as int)).push(added[i as int]));
    }
    assert(added.take(added.len() as int) =~= added);
    let ghost start = start + added;
    assert(start =~= start + removed.take(0));
    for i in 0..change.knots_removed.len()
        invariant
            removed == change@.knots_removed.map_values(|k| knot_removed_line(k)),
            text::texts(lines@) == start + removed.take(i as int),
    {
        let (loom, knot) = &change.knots_removed[i];
        let line = knot_line_of(loom.as_str(), knot.as_str(), "- (removed)");
        assert(line@ == removed[i as int]);
        lines.push(line);
        assert(start + removed.take(i + 1) =~= (start + removed.take(i as int)).push(
            removed[i as int],
        ));
    }
    assert(removed.take(removed.len() as int) =~= removed);
    let ghost start = start + removed;
    assert(start =~= start + updated.take(0));
    for i in 0..change.knot_updates.len()
        invariant
            updated == change@.knot_updates.map_values(|u| knot_updated_line(u)),
            text::texts(lines@) == start + updated.take(i as int),
    {
        let update = &change.knot_updates[i];
        let mut line = knot_line_of(update.loom.as_str(), update.knot.as_str(), ": ");
        line.append(render_knot_fields(&update.field_changes).as_str());
        assert(update@ == change@.knot_updates[i as int]);
        assert(update@.field_changes == knot_changes_view(update.field_changes@));
        assert(line@ == updated[i as int]);
        lines.push(line);
        assert(start + updated.take(i + 1) =~= (start + updated.take(i as int)).push(
            updated[i as int],
        ));
    }
    assert(updated.take(updated.len() as int) =~= updated);
}

fn push_profile_lines(lines: &mut Vec<String>, change: &StateChange)
    ensures
        text::texts(final(lines)@) == text::texts(old(lines)@)
            + change@.profiles_added.map_values(|name| profile_added_line(name))
            + change@.profiles_removed.map_values(|name| profile_removed_line(name))
            + change@.profile_updates.map_values(|u| profile_updated_line(u)),
{
    broadcast use text::texts_push;

    let ghost start = text::texts(lines@);
    let ghost added = change@.profiles_added.map_values(|name| profile_added_line(name));
    let ghost removed = change@.profiles_removed.map_values(|name| profile_removed_line(name));
    let ghost updated = change@.profile_updates.map_values(|u| profile_updated_line(u));
    assert(start =~= start + added.take(0));
    for i in 0..change.profiles_added.len()
        invariant
            added == change@.profiles_added.map_values(|name| profile_added_line(name)),
            text::texts(lines@) == start + added.take(i as int),
    {
        let line = line_of(
            "[KNOT][STATE] change profile+ ",
            change.profiles_added[i].as_str(),
            " (added)",
        );
        assert(line@ == added[i as int]);
        lines.push(line);
        assert(start + added.take(i + 1) =~= (start + added.take(i as int)).push(added[i as int]));
    }
    assert(added.take(added.len() as int) =~= added);
    let ghost start = start + added;
    assert(start =~= start + removed.take(0));
    for i in 0..change.profiles_removed.len()
        invariant
            removed == change@.profiles_removed.map_values(|name| profile_removed_line(name)),
            text::texts(lines@) == start + removed.take(i as int),
    {
        let line = line_of(
            "[KNOT][STATE] change profile- ",
            change.profiles_removed[i].as_str(),
            " (removed)",
        );
        assert(line@ == removed[i as int]);
        lines.push(line);
        assert(start + removed.take(i + 1) =~= (start + removed.take(i as int)).push(
            removed[i as int],
        ));
    }
    assert(removed.take(removed.len() as int) =~= removed);
    let ghost start = start + removed;
    assert(start =~= start + updated.take(0));
    for i in 0..change.profile_updates.len()
        invariant
            updated == change@.profile_updates.map_values(|u| profile_updated_line(u)),
            text::texts(lines@) == start + updated.take(i as int),
    {
        let update = &change.profile_updates[i];
        let mut line = line_of("[KNOT][STATE] change profile ", update.name.as_str(), ": ");
        line.append(render_profile_fields(&update.field_changes).as_str());
        assert(update@ == change@.profile_updates[i as int]);
        assert(update@.field_changes == profile_changes_view(update.field_changes@));
        assert(line@ == updated[i as int]);
        lines.push(line);
        assert(start + updated.take(i + 1) =~= (start + updated.take(i as int)).push(
            updated[i as int],
        ));
    }
    assert(updated.take(updated.len() as int) =~= updated);
}

fn push_queue_lines(lines: &mut Vec<String>, change: &StateChange)
    ensures
        text::texts(final(lines)@) == text::texts(old(lines)@)
            + change@.queue_added.map_values(|e| queue_added_line(e))
            + change@.queue_removed.map_values(|e| queue_removed_line(e)),
{
    broadcast use text::texts_push;

    let ghost start = text::texts(lines@);
    let ghost added = change@.queue_added.map_values(|e| queue_added_line(e));
    let ghost removed = change@.queue_removed.map_values(|e| queue_removed_line(e));
    assert(start =~= start + added.take(0));
    for i in 0..change.queue_added.len()
        invariant
            added == change@.queue_added.map_values(|e| queue_added_line(e)),
            text::texts(lines@) == start + added.take(i as int),
    {
        let entry = &change.queue_added[i];
        let mut line = String::new();
        push_field(&mut line, "[KNOT][STATE] change queue+ ", entry.strand_path.as_str());
        push_field(&mut line, " (", entry.event_kind.as_str());
        push_field(&mut line, " ", entry.loom_id.as_str());
        push_field(&mut line, "/", entry.knot_id.as_str());
        line.append(")");
        assert(entry@ == change@.queue_added[i as int]);
        assert(line@ == added[i as int]);
        lines.push(line);
        assert(start + added.take(i + 1) =~= (start + added.take(i as int)).push(added[i as int]));
    }
    assert(added.take(added.len() as int) =~= added);
    let ghost start = start + added;
    assert(start =~= start + removed.take(0));
    for i in 0..change.queue_removed.len()
        invariant
            removed == change@.queue_removed.map_values(|e| queue_removed_line(e)),
            text::texts(lines@) == start + removed.take(i as int),
    {
        let mut line = String::new();
        push_field(
            &mut line,
            "[KNOT][STATE] change queue- ",
            change.queue_removed[i].strand_path.as_str(),
        );
        assert(change.queue_removed@[i as int]@ == change@.queue_removed[i as int]);
        assert(line@ == removed[i as int]);
        lines.push(line);
        assert(start + removed.take(i + 1) =~= (start + removed.take(i as int)).push(
            removed[i as int],
        ));
    }
    assert(removed.take(removed.len() as int) =~= removed);
}

/// Render the lines for a state write, without leading timestamps.
///
/// The first write after startup gives a single line with the snapshot's
/// totals. Later writes give one line per changed aspect: none where
/// nothing changed.
pub fn render_state_write_lines(
    first_write: bool,
    change: &StateChange,
    snapshot: &RigState,
) -> (lines: Vec<String>)
    ensures
        text::texts(lines@) == state_write_lines(first_write, change@, snapshot@),
        forall|i: int|
            0 <= i < text::texts(lines@).len() ==> text::unbroken(
                #[trigger] text::texts(lines@)[i],
            ),
{
    proof {
        state_lines_are_one_line(first_write, change@, snapshot@);
    }
    let mut lines: Vec<String> = Vec::new();
    if first_write {
        let mut line = "[KNOT][STATE] initial snapshot looms=".to_string();
        line.append(decimal_text(snapshot.looms.len() as u128).as_str());
        push_number(&mut line, " knots=", count_knots(&snapshot.looms));
        push_number(&mut line, " profiles=", snapshot.profiles.len() as u128);
        push_number(&mut line, " queue=", snapshot.strand_queue.len() as u128);
        lines.push(line);
        assert(text::texts(lines@) =~= seq![baseline_line(snapshot@)]);
        return lines;
    }
    push_loom_lines(&mut lines, change, &snapshot.looms);
    push_knot_lines(&mut lines, change);
    push_profile_lines(&mut lines, change);
    push_queue_lines(&mut lines, change);
    assert(text::texts(lines@) =~= change_lines(change@, snapshot@.looms));
    lines
}

// ── Laws ───────────────────────────────────────────────────────────────

proof fn labels_unbroken()
    ensures
        text::unbroken(" aborted="@),
        text::unbroken(" attempt="@),
        text::unbroken(" batch-start="@),
        text::unbroken(" blocked-call="@),
        text::unbroken(" budget="@),
        text::unbroken(" context-tokens="@),
        text::unbroken(" continuations="@),
        text::unbroken(" directory="@),
        text::unbroken(" dispatch="@),
        text::unbroken(" error="@),
        text::unbroken(" expected="@),
        text::unbroken(" file="@),
        text::unbroken(" hop="@),
        text::unbroken(" knot="@),
        text::unbroken(" limit="@),
        text::unbroken(" loom="@),
        text::unbroken(" message="@),
        text::unbroken(" missing="@),
        text::unbroken(" reason="@),
        text::unbroken(" remaining="@),
        text::unbroken(" session="@),
        text::unbroken(" silent="@),
        text::unbroken(" strand="@),
        text::unbroken(" tie-off="@),
        text::unbroken(" tokens-before="@),
        text::unbroken(" window="@),
        text::unbroken("'s"@),
        text::unbroken(","@),
        text::unbroken("/"@),
        text::unbroken(": "@),
        text::unbroken("AgentInactivity"@),
        text::unbroken("CompactionInterrupted"@),
        text::unbroken("CompactionStarted"@),
        text::unbroken("ContextCompacted"@),
        text::unbroken("ContextCompactionFailed"@),
        text::unbroken("ContextWrapUpSteered"@),
        text::unbroken("DirectoryCreated"@),
        text::unbroken("EventsDispatched"@),
        text::unbroken("KnotCompleted"@),
        text::unbroken("KnotDeregistered"@),
        text::unbroken("KnotEmptyResponse"@),
        text::unbroken("KnotEventsMissing"@),
        text::unbroken("KnotFailed"@),
        text::unbroken("KnotParseWarning"@),
        text::unbroken("KnotProcessing"@),
        text::unbroken("KnotRegistered"@),
        text::unbroken("LoomStarted"@),
        text::unbroken("LoomStopped"@),
        text::unbroken("ManualCompactionFailed"@),
        text::unbroken("ManualCompactionSucceeded"@),
        text::unbroken("QueueIdle"@),
        text::unbroken("RunAbandoned"@),
        text::unbroken("SessionRestarted"@),
        text::unbroken("SessionResumed"@),
        text::unbroken("StrandIgnored"@),
        text::unbroken("StrandProcessed"@),
        text::unbroken("StrandSkipped"@),
        text::unbroken("TimeoutExceeded"@),
        text::unbroken("TurnContinued"@),
        text::unbroken("BatchIncomplete"@),
        text::unbroken("TasksIncomplete"@),
        text::unbroken("false"@),
        text::unbroken("true"@),
        text::unbroken("→"@),
{
    reveal_strlit(" aborted=");
    reveal_strlit(" attempt=");
    reveal_strlit(" batch-start=");
    reveal_strlit(" blocked-call=");
    reveal_strlit(" budget=");
    reveal_strlit(" context-tokens=");
    reveal_strlit(" continuations=");
    reveal_strlit(" directory=");
    reveal_strlit(" dispatch=");
    reveal_strlit(" error=");
    reveal_strlit(" expected=");
    reveal_strlit(" file=");
    reveal_strlit(" hop=");
    reveal_strlit(" knot=");
    reveal_strlit(" limit=");
    reveal_strlit(" loom=");
    reveal_strlit(" message=");
    reveal_strlit(" missing=");
    reveal_strlit(" reason=");
    reveal_strlit(" remaining=");
    reveal_strlit(" session=");
    reveal_strlit(" silent=");
    reveal_strlit(" strand=");
    reveal_strlit(" tie-off=");
    reveal_strlit(" tokens-before=");
    reveal_strlit(" window=");
    reveal_strlit("'s");
    reveal_strlit(",");
    reveal_strlit("/");
    reveal_strlit(": ");
    reveal_strlit("AgentInactivity");
    reveal_strlit("CompactionInterrupted");
    reveal_strlit("CompactionStarted");
    reveal_strlit("ContextCompacted");
    reveal_strlit("ContextCompactionFailed");
    reveal_strlit("ContextWrapUpSteered");
    reveal_strlit("DirectoryCreated");
    reveal_strlit("EventsDispatched");
    reveal_strlit("KnotCompleted");
    reveal_strlit("KnotDeregistered");
    reveal_strlit("KnotEmptyResponse");
    reveal_strlit("KnotEventsMissing");
    reveal_strlit("KnotFailed");
    reveal_strlit("KnotParseWarning");
    reveal_strlit("KnotProcessing");
    reveal_strlit("KnotRegistered");
    reveal_strlit("LoomStarted");
    reveal_strlit("LoomStopped");
    reveal_strlit("ManualCompactionFailed");
    reveal_strlit("ManualCompactionSucceeded");
    reveal_strlit("QueueIdle");
    reveal_strlit("RunAbandoned");
    reveal_strlit("SessionRestarted");
    reveal_strlit("SessionResumed");
    reveal_strlit("StrandIgnored");
    reveal_strlit("StrandProcessed");
    reveal_strlit("StrandSkipped");
    reveal_strlit("TimeoutExceeded");
    reveal_strlit("TurnContinued");
    reveal_strlit("BatchIncomplete");
    reveal_strlit("TasksIncomplete");
    reveal_strlit("false");
    reveal_strlit("true");
    reveal_strlit("→");
}

proof fn dispatch_fields_unbroken(dispatches: Seq<(Seq<char>, Seq<char>, Seq<char>, Seq<char>)>)
    ensures
        text::unbroken(dispatch_fields(dispatches)),
    decreases dispatches.len(),
{
    broadcast use {text::unbroken_concat, text::one_line_is_unbroken};

    if dispatches.len() > 0 {
        labels_unbroken();
        dispatch_fields_unbroken(dispatches.drop_last());
    }
}

/// A loom event is one physical line, whatever its texts hold.
pub proof fn loom_event_is_one_line(fact: LoomFact)
    ensures
        text::unbroken(loom_event_line(fact)),
{
    broadcast use {text::unbroken_concat, text::unbroken_decimal, text::one_line_is_unbroken};

    labels_unbroken();
    if let LoomFact::EventsDispatched { dispatches, .. } = fact {
        dispatch_fields_unbroken(dispatches);
    }
}

/// The name of a loom event.
pub open spec fn event_name(fact: LoomFact) -> Seq<char> {
    match fact {
        LoomFact::LoomStarted { .. } => "LoomStarted"@,
        LoomFact::LoomStopped { .. } => "LoomStopped"@,
        LoomFact::KnotRegistered { .. } => "KnotRegistered"@,
        LoomFact::KnotDeregistered { .. } => "KnotDeregistered"@,
        LoomFact::KnotProcessing { .. } => "KnotProcessing"@,
        LoomFact::KnotCompleted { .. } => "KnotCompleted"@,
        LoomFact::KnotFailed { .. } => "KnotFailed"@,
        LoomFact::StrandProcessed { .. } => "StrandProcessed"@,
        LoomFact::StrandIgnored { .. } => "StrandIgnored"@,
        LoomFact::StrandSkipped { .. } => "StrandSkipped"@,
        LoomFact::AgentInactivity { .. } => "AgentInactivity"@,
        LoomFact::SessionResumed { .. } => "SessionResumed"@,
        LoomFact::KnotEmptyResponse { .. } => "KnotEmptyResponse"@,
        LoomFact::CompactionStarted { .. } => "CompactionStarted"@,
        LoomFact::ContextCompacted { .. } => "ContextCompacted"@,
        LoomFact::ContextCompactionFailed { .. } => "ContextCompactionFailed"@,
        LoomFact::CompactionInterrupted { .. } => "CompactionInterrupted"@,
        LoomFact::ManualCompactionSucceeded { .. } => "ManualCompactionSucceeded"@,
        LoomFact::ManualCompactionFailed { .. } => "ManualCompactionFailed"@,
        LoomFact::SessionRestarted { .. } => "SessionRestarted"@,
        LoomFact::RunAbandoned { .. } => "RunAbandoned"@,
        LoomFact::TurnContinued { .. } => "TurnContinued"@,
        LoomFact::ContextWrapUpSteered { .. } => "ContextWrapUpSteered"@,
        LoomFact::EventsDispatched { .. } => "EventsDispatched"@,
        LoomFact::KnotEventsMissing { .. } => "KnotEventsMissing"@,
        LoomFact::KnotParseWarning { .. } => "KnotParseWarning"@,
        LoomFact::DirectoryCreated { .. } => "DirectoryCreated"@,
        LoomFact::TasksIncomplete { .. } => "TasksIncomplete"@,
        LoomFact::BatchIncomplete { .. } => "BatchIncomplete"@,
    }
}

/// Whether a text goes on from a start.
#[verifier::opaque]
spec fn goes_on(start: Seq<char>, text: Seq<char>) -> bool {
    start.is_prefix_of(text)
}

proof fn goes_on_from_itself(start: Seq<char>)
    ensures
        goes_on(start, start),
{
    reveal(goes_on);
}

/// A text that goes on from a start still does when more follows.
broadcast proof fn goes_on_further(start: Seq<char>, text: Seq<char>, more: Seq<char>)
    requires
        goes_on(start, text),
    ensures
        #[trigger] goes_on(start, text + more),
{
    reveal(goes_on);
    assert(start =~= (text + more).subrange(0, start.len() as int));
}

/// The line of a loom event starts with the event's name and its loom.
pub proof fn loom_event_lines_start_with_their_name(fact: LoomFact)
    ensures
        loom_line(event_name(fact), fact.loom_id()).is_prefix_of(loom_event_line(fact)),
{
    broadcast use goes_on_further;

    let start = loom_line(event_name(fact), fact.loom_id());
    goes_on_from_itself(start);
    assert(goes_on(start, loom_event_line(fact)));
    reveal(goes_on);
}

/// A rig event is one physical line, whatever its texts hold.
pub proof fn rig_event_is_one_line(fact: RigFact)
    ensures
        text::unbroken(rig_event_line(fact)),
{
    broadcast use {text::unbroken_concat, text::one_line_is_unbroken};

    labels_unbroken();
}

proof fn state_labels_unbroken()
    ensures
        text::unbroken("[KNOT][STATE] initial snapshot looms="@),
        text::unbroken(" knots="@),
        text::unbroken(" profiles="@),
        text::unbroken(" queue="@),
        text::unbroken("[KNOT][STATE] change loom+ "@),
        text::unbroken(" ("@),
        text::unbroken(" knots)"@),
        text::unbroken("[KNOT][STATE] change loom- "@),
        text::unbroken("[KNOT][STATE] change knot "@),
        text::unbroken("/"@),
        text::unbroken("+ (registered)"@),
        text::unbroken("- (removed)"@),
        text::unbroken(" "@),
        text::unbroken("→ cleared"@),
        text::unbroken("="@),
        text::unbroken("status "@),
        text::unbroken("?"@),
        text::unbroken("→"@),
        text::unbroken("removed"@),
        text::unbroken("strand"@),
        text::unbroken("tie-off"@),
        text::unbroken("error"@),
        text::unbroken("event-at"@),
        text::unbroken(": "@),
        text::unbroken("[KNOT][STATE] change profile+ "@),
        text::unbroken(" (added)"@),
        text::unbroken("[KNOT][STATE] change profile- "@),
        text::unbroken(" (removed)"@),
        text::unbroken("model-ref"@),
        text::unbroken("provider"@),
        text::unbroken("model"@),
        text::unbroken("thinking-level"@),
        text::unbroken("timeout"@),
        text::unbroken("[KNOT][STATE] change profile "@),
        text::unbroken("[KNOT][STATE] change queue+ "@),
        text::unbroken(")"@),
        text::unbroken("[KNOT][STATE] change queue- "@),
{
    reveal_strlit("[KNOT][STATE] initial snapshot looms=");
    reveal_strlit(" knots=");
    reveal_strlit(" profiles=");
    reveal_strlit(" queue=");
    reveal_strlit("[KNOT][STATE] change loom+ ");
    reveal_strlit(" (");
    reveal_strlit(" knots)");
    reveal_strlit("[KNOT][STATE] change loom- ");
    reveal_strlit("[KNOT][STATE] change knot ");
    reveal_strlit("/");
    reveal_strlit("+ (registered)");
    reveal_strlit("- (removed)");
    reveal_strlit(" ");
    reveal_strlit("→ cleared");
    reveal_strlit("=");
    reveal_strlit("status ");
    reveal_strlit("?");
    reveal_strlit("→");
    reveal_strlit("removed");
    reveal_strlit("strand");
    reveal_strlit("tie-off");
    reveal_strlit("error");
    reveal_strlit("event-at");
    reveal_strlit(": ");
    reveal_strlit("[KNOT][STATE] change profile+ ");
    reveal_strlit(" (added)");
    reveal_strlit("[KNOT][STATE] change profile- ");
    reveal_strlit(" (removed)");
    reveal_strlit("model-ref");
    reveal_strlit("provider");
    reveal_strlit("model");
    reveal_strlit("thinking-level");
    reveal_strlit("timeout");
    reveal_strlit("[KNOT][STATE] change profile ");
    reveal_strlit("[KNOT][STATE] change queue+ ");
    reveal_strlit(")");
    reveal_strlit("[KNOT][STATE] change queue- ");
}

proof fn knot_parts_unbroken(changes: Seq<(KnotField, Option<Seq<char>>, Option<Seq<char>>)>)
    ensures
        forall|i: int|
            0 <= i < knot_parts(changes).len() ==> text::unbroken(
                #[trigger] knot_parts(changes)[i],
            ),
    decreases changes.len(),
{
    broadcast use {text::unbroken_concat, text::one_line_is_unbroken};

    if changes.len() > 0 {
        state_labels_unbroken();
        knot_parts_unbroken(changes.drop_last());
        let before = knot_parts(changes.drop_last());
        let parts = knot_parts(changes);
        assert forall|i: int| 0 <= i < parts.len() implies text::unbroken(#[trigger] parts[i]) by {
            if i < before.len() {
                assert(parts[i] == before[i]);
            }
        }
    }
}

proof fn profile_parts_unbroken(
    changes: Seq<(ProfileField, Option<Seq<char>>, Option<Seq<char>>)>,
)
    ensures
        forall|i: int|
            0 <= i < profile_parts(changes).len() ==> text::unbroken(
                #[trigger] profile_parts(changes)[i],
            ),
    decreases changes.len(),
{
    broadcast use {text::unbroken_concat, text::one_line_is_unbroken};

    if changes.len() > 0 {
        state_labels_unbroken();
        profile_parts_unbroken(changes.drop_last());
        let before = profile_parts(changes.drop_last());
        let parts = profile_parts(changes);
        assert forall|i: int| 0 <= i < parts.len() implies text::unbroken(#[trigger] parts[i]) by {
            if i < before.len() {
                assert(parts[i] == before[i]);
            }
        }
    }
}

/// Every line of a state write is one physical line, whatever its texts hold.
pub proof fn state_lines_are_one_line(
    first_write: bool,
    change: StateChangeView,
    snapshot: RigStateView,
)
    ensures
        forall|i: int|
            0 <= i < state_write_lines(first_write, change, snapshot).len() ==> text::unbroken(
                #[trigger] state_write_lines(first_write, change, snapshot)[i],
            ),
{
    broadcast use {text::unbroken_concat, text::unbroken_decimal, text::one_line_is_unbroken};

    state_labels_unbroken();
    assert forall|u: KnotUpdateView| text::unbroken(#[trigger] knot_updated_line(u)) by {
        knot_parts_unbroken(u.field_changes);
        text::unbroken_joined(knot_parts(u.field_changes), " "@);
    }
    assert forall|u: ProfileUpdateView| text::unbroken(#[trigger] profile_updated_line(u)) by {
        profile_parts_unbroken(u.field_changes);
        text::unbroken_joined(profile_parts(u.field_changes), " "@);
    }
}

/// A write that changes nothing is silent, except for the first one.
pub proof fn unchanged_state_is_silent(snapshot: RigStateView)
    ensures
        state_write_lines(false, StateChangeView::nothing(), snapshot).len() == 0,
        state_write_lines(true, StateChangeView::nothing(), snapshot).len() == 1,
{
}

/// A later write gives exactly one line per changed aspect.
pub proof fn one_line_per_change(change: StateChangeView, snapshot: RigStateView)
    ensures
        state_write_lines(false, change, snapshot).len() == change.looms_added.len()
            + change.looms_removed.len() + change.knots_added.len() + change.knots_removed.len()
            + change.knot_updates.len() + change.profiles_added.len()
            + change.profiles_removed.len() + change.profile_updates.len()
            + change.queue_added.len() + change.queue_removed.len(),
{
}

/// Whether a text stands somewhere in a line.
pub open spec fn tells(line: Seq<char>, part: Seq<char>) -> bool {
    exists|i: int| #[trigger] part_at(line, part, i)
}

/// Whether a text stands at a place in a line.
pub open spec fn part_at(line: Seq<char>, part: Seq<char>, i: int) -> bool {
    0 <= i && i + part.len() <= line.len() && line.subrange(i, i + part.len()) == part
}

broadcast proof fn tells_what_stands_last(line: Seq<char>, part: Seq<char>)
    ensures
        #[trigger] tells(line + part, part),
{
    assert((line + part).subrange(line.len() as int, line.len() + part.len() as int) =~= part);
    assert(part_at(line + part, part, line.len() as int));
}

broadcast proof fn tells_the_last_field(line: Seq<char>, key: Seq<char>, value: Seq<char>)
    ensures
        #[trigger] tells(line + key + value, key + value),
{
    assert(line + key + value =~= line + (key + value));
    tells_what_stands_last(line, key + value);
}

broadcast proof fn tells_the_last_two(
    line: Seq<char>,
    key: Seq<char>,
    value: Seq<char>,
    mark: Seq<char>,
    more: Seq<char>,
)
    ensures
        #[trigger] tells(line + key + value + mark + more, key + value + mark + more),
{
    assert(line + key + value + mark + more =~= line + (key + value + mark + more));
    tells_what_stands_last(line, key + value + mark + more);
}

broadcast proof fn tells_no_less(line: Seq<char>, more: Seq<char>, part: Seq<char>)
    requires
        tells(line, part),
    ensures
        #[trigger] tells(line + more, part),
{
    let i = choose|i: int| #[trigger] part_at(line, part, i);
    assert((line + more).subrange(i, i + part.len()) =~= line.subrange(i, i + part.len()));
    assert(part_at(line + more, part, i));
}

/// The line of a loom event opens with the event's name and its loom, and tells
/// each of the event's values behind the value's key: texts on one line, numbers
/// in decimal, and what is optional where it is there.
#[verifier::rlimit(60)]
#[verifier::spinoff_prover]
pub proof fn event_lines_tell_their_values(fact: LoomFact)
    ensures
        ({
            let line = loom_event_line(fact);
            &&& (event_name(fact) + " loom="@ + text::one_line(fact.loom_id())).is_prefix_of(line)
            &&& match fact {
                LoomFact::LoomStarted { .. } => true,
                LoomFact::LoomStopped { .. } => true,
                LoomFact::KnotRegistered { knot_id, .. } => {
                    &&& tells(line, " knot="@ + text::one_line(knot_id))
                },
                LoomFact::KnotDeregistered { knot_id, .. } => {
                    &&& tells(line, " knot="@ + text::one_line(knot_id))
                },
                LoomFact::KnotProcessing { knot_id, strand_path, .. } => {
                    &&& tells(line, " knot="@ + text::one_line(knot_id))
                    &&& tells(line, " strand="@ + text::one_line(strand_path))
                },
                LoomFact::KnotCompleted { knot_id, strand_path, tie_off_path, .. } => {
                    &&& tells(line, " knot="@ + text::one_line(knot_id))
                    &&& tells(line, " strand="@ + text::one_line(strand_path))
                    &&& tells(line, " tie-off="@ + text::one_line(tie_off_path))
                },
                LoomFact::KnotFailed { knot_id, strand_path, error, .. } => {
                    &&& tells(line, " knot="@ + text::one_line(knot_id))
                    &&& tells(line, " strand="@ + text::one_line(strand_path))
                    &&& tells(line, " error="@ + text::one_line(error))
                },
                LoomFact::StrandProcessed { strand_path, error, .. } => {
                    &&& tells(line, " strand="@ + text::one_line(strand_path))
                    &&& error is Some ==> tells(line, " error="@ + text::one_line(error->0))
                },
                LoomFact::StrandIgnored { knot_id, strand_path, reason, .. } => {
                    &&& tells(line, " knot="@ + text::one_line(knot_id))
                    &&& tells(line, " strand="@ + text::one_line(strand_path))
                    &&& tells(line, " reason="@ + text::one_line(reason))
                },
                LoomFact::StrandSkipped { knot_id, strand_path, reason, .. } => {
                    &&& tells(line, " knot="@ + text::one_line(knot_id))
                    &&& tells(line, " strand="@ + text::one_line(strand_path))
                    &&& tells(line, " reason="@ + text::one_line(reason))
                },
                LoomFact::AgentInactivity { knot_id, strand_path, session_id, silent_secs, window_secs, blocked_call, attempt, .. } => {
                    &&& tells(line, " knot="@ + text::one_line(knot_id))
                    &&& tells(line, " strand="@ + text::one_line(strand_path))
                    &&& tells(line, " session="@ + text::one_line(session_id))
                    &&& tells(line, " silent="@ + text::decimal(silent_secs as nat))
                    &&& tells(line, " window="@ + text::decimal(window_secs as nat))
                    &&& blocked_call is Some ==> tells(line, " blocked-call="@ + text::one_line(blocked_call->0))
                    &&& tells(line, " attempt="@ + text::decimal(attempt as nat))
                },
                LoomFact::SessionResumed { knot_id, strand_path, session_id, attempt, .. } => {
                    &&& tells(line, " knot="@ + text::one_line(knot_id))
                    &&& tells(line, " strand="@ + text::one_line(strand_path))
                    &&& tells(line, " session="@ + text::one_line(session_id))
                    &&& tells(line, " attempt="@ + text::decimal(attempt as nat))
                },
                LoomFact::KnotEmptyResponse { knot_id, strand_path, attempt, .. } => {
                    &&& tells(line, " knot="@ + text::one_line(knot_id))
                    &&& tells(line, " strand="@ + text::one_line(strand_path))
                    &&& tells(line, " attempt="@ + text::decimal(attempt as nat))
                },
                LoomFact::CompactionStarted { knot_id, strand_path, session_id, reason, attempt, .. } => {
                    &&& tells(line, " knot="@ + text::one_line(knot_id))
                    &&& tells(line, " strand="@ + text::one_line(strand_path))
                    &&& tells(line, " session="@ + text::one_line(session_id))
                    &&& tells(line, " reason="@ + text::one_line(reason))
                    &&& tells(line, " attempt="@ + text::decimal(attempt as nat))
                },
                LoomFact::ContextCompacted { knot_id, strand_path, session_id, reason, tokens_before, attempt, .. } => {
                    &&& tells(line, " knot="@ + text::one_line(knot_id))
                    &&& tells(line, " strand="@ + text::one_line(strand_path))
                    &&& tells(line, " session="@ + text::one_line(session_id))
                    &&& tells(line, " reason="@ + text::one_line(reason))
                    &&& tokens_before is Some ==> tells(line, " tokens-before="@ + text::decimal(tokens_before->0 as nat))
                    &&& tells(line, " attempt="@ + text::decimal(attempt as nat))
                },
                LoomFact::ContextCompactionFailed { knot_id, strand_path, session_id, reason, error, aborted, attempt, .. } => {
                    &&& tells(line, " knot="@ + text::one_line(knot_id))
                    &&& tells(line, " strand="@ + text::one_line(strand_path))
                    &&& tells(line, " session="@ + text::one_line(session_id))
                    &&& tells(line, " reason="@ + text::one_line(reason))
                    &&& error is Some ==> tells(line, " error="@ + text::one_line(error->0))
                    &&& tells(line, " aborted="@ + (if aborted {
                        "true"@
                    } else {
                        "false"@
                    }))
                    &&& tells(line, " attempt="@ + text::decimal(attempt as nat))
                },
                LoomFact::CompactionInterrupted { knot_id, strand_path, session_id, reason, attempt, .. } => {
                    &&& tells(line, " knot="@ + text::one_line(knot_id))
                    &&& tells(line, " strand="@ + text::one_line(strand_path))
                    &&& tells(line, " session="@ + text::one_line(session_id))
                    &&& tells(line, " reason="@ + text::one_line(reason))
                    &&& tells(line, " attempt="@ + text::decimal(attempt as nat))
                },
                LoomFact::ManualCompactionSucceeded { knot_id, strand_path, session_id, tokens_before, attempt, .. } => {
                    &&& tells(line, " knot="@ + text::one_line(knot_id))
                    &&& tells(line, " strand="@ + text::one_line(strand_path))
                    &&& tells(line, " session="@ + text::one_line(session_id))
                    &&& tells(line, " tokens-before="@ + text::decimal(tokens_before as nat))
                    &&& tells(line, " attempt="@ + text::decimal(attempt as nat))
                },
                LoomFact::ManualCompactionFailed { knot_id, strand_path, session_id, error, attempt, .. } => {
                    &&& tells(line, " knot="@ + text::one_line(knot_id))
                    &&& tells(line, " strand="@ + text::one_line(strand_path))
                    &&& tells(line, " session="@ + text::one_line(session_id))
                    &&& tells(line, " error="@ + text::one_line(error))
                    &&& tells(line, " attempt="@ + text::decimal(attempt as nat))
                },
                LoomFact::SessionRestarted { knot_id, strand_path, session_id, attempt, .. } => {
                    &&& tells(line, " knot="@ + text::one_line(knot_id))
                    &&& tells(line, " strand="@ + text::one_line(strand_path))
                    &&& tells(line, " session="@ + text::one_line(session_id))
                    &&& tells(line, " attempt="@ + text::decimal(attempt as nat))
                },
                LoomFact::RunAbandoned { knot_id, strand_path, session_id, .. } => {
                    &&& tells(line, " knot="@ + text::one_line(knot_id))
                    &&& tells(line, " strand="@ + text::one_line(strand_path))
                    &&& session_id is Some ==> tells(line, " session="@ + text::one_line(session_id->0))
                },
                LoomFact::TurnContinued { knot_id, strand_path, session_id, reason, attempt, .. } => {
                    &&& tells(line, " knot="@ + text::one_line(knot_id))
                    &&& tells(line, " strand="@ + text::one_line(strand_path))
                    &&& tells(line, " session="@ + text::one_line(session_id))
                    &&& tells(line, " reason="@ + text::one_line(reason))
                    &&& tells(line, " attempt="@ + text::decimal(attempt as nat))
                },
                LoomFact::ContextWrapUpSteered { knot_id, strand_path, session_id, context_tokens, limit, attempt, .. } => {
                    &&& tells(line, " knot="@ + text::one_line(knot_id))
                    &&& tells(line, " strand="@ + text::one_line(strand_path))
                    &&& tells(line, " session="@ + text::one_line(session_id))
                    &&& tells(line, " context-tokens="@ + text::decimal(context_tokens as nat))
                    &&& tells(line, " limit="@ + text::decimal(limit as nat))
                    &&& tells(line, " attempt="@ + text::decimal(attempt as nat))
                },
                LoomFact::EventsDispatched { knot_id, strand_path, .. } => {
                    &&& tells(line, " knot="@ + text::one_line(knot_id))
                    &&& tells(line, " strand="@ + text::one_line(strand_path))
                },
                LoomFact::KnotEventsMissing { knot_id, strand_path, expected_events, missing_events, .. } => {
                    &&& tells(line, " knot="@ + text::one_line(knot_id))
                    &&& tells(line, " strand="@ + text::one_line(strand_path))
                    &&& tells(line, " expected="@ + text::one_line(text::joined(expected_events, ","@)))
                    &&& tells(line, " missing="@ + text::one_line(text::joined(missing_events, ","@)))
                },
                LoomFact::KnotParseWarning { knot_file_name, message, .. } => {
                    &&& tells(line, " file="@ + text::one_line(knot_file_name))
                    &&& tells(line, " message="@ + text::one_line(message))
                },
                LoomFact::DirectoryCreated { knot_id, directory, .. } => {
                    &&& tells(line, " knot="@ + text::one_line(knot_id))
                    &&& tells(line, " directory="@ + text::one_line(directory))
                },
                LoomFact::TasksIncomplete { knot_id, strand_path, continuations, reason, budget_secs, batch_start_epoch, .. } => {
                    &&& tells(line, " knot="@ + text::one_line(knot_id))
                    &&& tells(line, " strand="@ + text::one_line(strand_path))
                    &&& tells(
                        line,
                        " hop="@ + text::decimal(continuations as nat) + "/"@ + text::decimal(10),
                    )
                    &&& tells(line, " reason="@ + text::one_line(reason))
                    &&& budget_secs is Some ==> tells(
                        line,
                        " remaining="@ + text::decimal(budget_secs->0 as nat) + "'s"@,
                    )
                    &&& batch_start_epoch is Some ==> tells(line, " batch-start="@ + text::decimal(batch_start_epoch->0 as nat))
                },
                LoomFact::BatchIncomplete { knot_id, reason, continuations, budget_secs, batch_start_epoch, .. } => {
                    &&& tells(line, " knot="@ + text::one_line(knot_id))
                    &&& tells(line, " reason="@ + text::one_line(reason))
                    &&& tells(line, " continuations="@ + text::decimal(continuations as nat))
                    &&& budget_secs is Some ==> tells(
                        line,
                        " budget="@ + text::decimal(budget_secs->0 as nat) + "'s"@,
                    )
                    &&& batch_start_epoch is Some ==> tells(line, " batch-start="@ + text::decimal(batch_start_epoch->0 as nat))
                },
            }
        }),
{
    loom_event_lines_start_with_their_name(fact);
    broadcast use {
        tells_what_stands_last,
        tells_the_last_field,
        tells_the_last_two,
        tells_no_less,
    };

}

/// Every dispatch is told, in order: what was dispatched, to which knot of
/// which loom, and where it was written.
pub proof fn dispatches_are_told_in_order(
    dispatches: Seq<(Seq<char>, Seq<char>, Seq<char>, Seq<char>)>,
    i: int,
)
    requires
        0 <= i < dispatches.len(),
    ensures
        dispatch_fields(dispatches) == dispatch_fields(dispatches.take(i)) + (" dispatch="@
            + text::one_line(dispatches[i].0) + "→"@ + text::one_line(dispatches[i].2) + "/"@
            + text::one_line(dispatches[i].1) + ": "@ + text::one_line(dispatches[i].3))
            + dispatch_fields(dispatches.skip(i + 1)),
    decreases dispatches.len(),
{
    let n = dispatches.len() as int;
    let own = " dispatch="@ + text::one_line(dispatches[i].0) + "→"@ + text::one_line(
        dispatches[i].2,
    ) + "/"@ + text::one_line(dispatches[i].1) + ": "@ + text::one_line(dispatches[i].3);
    if i == n - 1 {
        assert(dispatches.drop_last() =~= dispatches.take(i));
        assert(dispatches.skip(n) =~= Seq::empty());
        assert(dispatch_fields(dispatches) =~= dispatch_fields(dispatches.take(i)) + own
            + dispatch_fields(dispatches.skip(i + 1)));
    } else {
        let before = dispatches.drop_last();
        dispatches_are_told_in_order(before, i);
        assert(before.take(i) =~= dispatches.take(i));
        assert(before.skip(i + 1) =~= dispatches.skip(i + 1).drop_last());
        assert(dispatches.skip(i + 1).last() == dispatches.last());
        assert(dispatch_fields(dispatches) =~= dispatch_fields(dispatches.take(i)) + own
            + dispatch_fields(dispatches.skip(i + 1)));
    }
}

/// A strand that was processed without an error is told without one, and the
/// rig's events are told by their own names.
pub proof fn absent_errors_are_not_told(
    loom_id: Seq<char>,
    knot_id: Seq<char>,
    strand_path: Seq<char>,
    error: Seq<char>,
)
    ensures
        loom_event_line(LoomFact::StrandProcessed { loom_id, strand_path, error: None })
            == "StrandProcessed"@ + " loom="@ + text::one_line(loom_id) + " strand="@
            + text::one_line(strand_path),
        rig_event_line(RigFact::QueueIdle) == "QueueIdle"@,
        rig_event_line(RigFact::TimeoutExceeded { loom_id, knot_id, strand_path, error })
            == "TimeoutExceeded"@ + " loom="@ + text::one_line(loom_id) + " knot="@
            + text::one_line(knot_id) + " strand="@ + text::one_line(strand_path) + " error="@
            + text::one_line(error),
{
    let line = "StrandProcessed"@ + " loom="@ + text::one_line(loom_id) + " strand="@
        + text::one_line(strand_path);
    assert(line + Seq::<char>::empty() =~= line);
}

/// The first write tells how much there is of everything.
pub proof fn first_writes_count_everything(change: StateChangeView, snapshot: RigStateView)
    ensures
        state_write_lines(true, change, snapshot) == seq![
            "[KNOT][STATE] initial snapshot looms="@ + text::decimal(snapshot.looms.len())
                + " knots="@ + text::decimal(knot_total(snapshot.looms)) + " profiles="@
                + text::decimal(snapshot.profiles.len()) + " queue="@ + text::decimal(
                snapshot.strand_queue.len(),
            ),
        ],
{
}

/// The knots of looms are counted loom by loom.
pub proof fn knots_are_counted_per_loom(a: Seq<RigStateLoomView>, b: Seq<RigStateLoomView>)
    ensures
        knot_total(a + b) == knot_total(a) + knot_total(b),
        a.len() == 1 ==> knot_total(a) == a[0].knots.len(),
        a.len() == 0 ==> knot_total(a) == 0,
    decreases b.len(),
{
    reveal_with_fuel(knot_total, 2);
    if b.len() == 0 {
        assert(a + b =~= a);
    } else {
        assert((a + b).drop_last() =~= a + b.drop_last());
        knots_are_counted_per_loom(a, b.drop_last());
    }
}

/// The knots of a loom are those of the first of its name.
pub proof fn knots_are_counted_by_name(looms: Seq<RigStateLoomView>, id: Seq<char>, at: int)
    requires
        0 <= at <= looms.len(),
        at < looms.len() ==> looms[at].id == id,
        forall|j: int| 0 <= j < at ==> (#[trigger] looms[j]).id != id,
    ensures
        at < looms.len() ==> knots_of(looms, id) == looms[at].knots.len(),
        at == looms.len() ==> knots_of(looms, id) == 0,
    decreases looms.len(),
{
    if at > 0 {
        let rest = looms.drop_first();
        assert(looms[0].id != id);
        assert forall|j: int| 0 <= j < at - 1 implies (#[trigger] rest[j]).id != id by {
            assert(rest[j] == looms[j + 1]);
        }
        knots_are_counted_by_name(rest, id, at - 1);
    }
}

/// A later write tells every change in its own words: first the looms that are
/// new and those that are gone, then the knots, then the profiles, then the
/// queue.
pub proof fn changes_are_told_in_order(change: StateChangeView, snapshot: RigStateView, i: int)
    ensures
        ({
            let lines = state_write_lines(false, change, snapshot);
            let loom_less = change.looms_added.len() as int;
            let knot_more = loom_less + change.looms_removed.len();
            let knot_less = knot_more + change.knots_added.len();
            let knot_news = knot_less + change.knots_removed.len();
            let profile_more = knot_news + change.knot_updates.len();
            let profile_less = profile_more + change.profiles_added.len();
            let profile_news = profile_less + change.profiles_removed.len();
            let queue_more = profile_news + change.profile_updates.len();
            let queue_less = queue_more + change.queue_added.len();
            &&& 0 <= i < change.looms_added.len() ==> lines[i] == "[KNOT][STATE] change loom+ "@
                + text::one_line(change.looms_added[i]) + " ("@ + text::decimal(
                knots_of(snapshot.looms, change.looms_added[i]),
            ) + " knots)"@
            &&& 0 <= i < change.looms_removed.len() ==> lines[loom_less + i]
                == "[KNOT][STATE] change loom- "@ + text::one_line(change.looms_removed[i])
            &&& 0 <= i < change.knots_added.len() ==> lines[knot_more + i]
                == "[KNOT][STATE] change knot "@ + text::one_line(change.knots_added[i].0) + "/"@
                + text::one_line(change.knots_added[i].1) + "+ (registered)"@
            &&& 0 <= i < change.knots_removed.len() ==> lines[knot_less + i]
                == "[KNOT][STATE] change knot "@ + text::one_line(change.knots_removed[i].0)
                + "/"@ + text::one_line(change.knots_removed[i].1) + "- (removed)"@
            &&& 0 <= i < change.knot_updates.len() ==> lines[knot_news + i]
                == "[KNOT][STATE] change knot "@ + text::one_line(change.knot_updates[i].loom)
                + "/"@ + text::one_line(change.knot_updates[i].knot) + ": "@ + text::joined(
                knot_parts(change.knot_updates[i].field_changes),
                " "@,
            )
            &&& 0 <= i < change.profiles_added.len() ==> lines[profile_more + i]
                == "[KNOT][STATE] change profile+ "@ + text::one_line(change.profiles_added[i])
                + " (added)"@
            &&& 0 <= i < change.profiles_removed.len() ==> lines[profile_less + i]
                == "[KNOT][STATE] change profile- "@ + text::one_line(change.profiles_removed[i])
                + " (removed)"@
            &&& 0 <= i < change.profile_updates.len() ==> lines[profile_news + i]
                == "[KNOT][STATE] change profile "@ + text::one_line(
                change.profile_updates[i].name,
            ) + ": "@ + text::joined(
                profile_parts(change.profile_updates[i].field_changes),
                " "@,
            )
            &&& 0 <= i < change.queue_added.len() ==> lines[queue_more + i]
                == "[KNOT][STATE] change queue+ "@ + text::one_line(
                change.queue_added[i].strand_path,
            ) + " ("@ + text::one_line(change.queue_added[i].event_kind) + " "@ + text::one_line(
                change.queue_added[i].loom_id,
            ) + "/"@ + text::one_line(change.queue_added[i].knot_id) + ")"@
            &&& 0 <= i < change.queue_removed.len() ==> lines[queue_less + i]
                == "[KNOT][STATE] change queue- "@ + text::one_line(
                change.queue_removed[i].strand_path,
            )
        }),
{
}

/// The changes of a knot are told change by change, in order.
pub proof fn knot_changes_are_told_in_turn(
    a: Seq<(KnotField, Option<Seq<char>>, Option<Seq<char>>)>,
    b: Seq<(KnotField, Option<Seq<char>>, Option<Seq<char>>)>,
)
    ensures
        knot_parts(a + b) == knot_parts(a) + knot_parts(b),
    decreases b.len(),
{
    if b.len() == 0 {
        assert(a + b =~= a);
        assert(knot_parts(a) + knot_parts(b) =~= knot_parts(a));
    } else {
        assert((a + b).drop_last() =~= a + b.drop_last());
        knot_changes_are_told_in_turn(a, b.drop_last());
        assert(knot_parts(a + b) =~= knot_parts(a) + knot_parts(b));
    }
}

/// A changed status is told with both its values. Any other field is told with
/// its new value, or, where it has none, with the old one and that it was
/// cleared; a field without a value before and after is not told.
pub proof fn knot_changes_tell_their_values(
    field: KnotField,
    from: Option<Seq<char>>,
    to: Option<Seq<char>>,
)
    ensures
        ({
            let parts = knot_parts(seq![(field, from, to)]);
            let key = match field {
                KnotField::Status => "status"@,
                KnotField::LastStrandPath => "strand"@,
                KnotField::LastTieOffPath => "tie-off"@,
                KnotField::LastError => "error"@,
                KnotField::LastEventAt => "event-at"@,
            };
            &&& field is Status && from is Some && to is Some ==> parts == seq![
                "status "@ + text::one_line(from->0) + "→"@ + text::one_line(to->0),
            ]
            &&& field is Status && from is None && to is Some ==> parts == seq![
                "status "@ + "?"@ + "→"@ + text::one_line(to->0),
            ]
            &&& field is Status && from is Some && to is None ==> parts == seq![
                "status "@ + text::one_line(from->0) + "→"@ + "removed"@,
            ]
            &&& !(field is Status) && to is Some ==> parts == seq![
                key + "="@ + text::one_line(to->0),
            ]
            &&& !(field is Status) && to is None && from is Some ==> parts == seq![
                key + " "@ + text::one_line(from->0) + "→ cleared"@,
            ]
            &&& !(field is Status) && to is None && from is None ==> parts.len() == 0
        }),
{
    reveal_with_fuel(knot_parts, 2);
    let change = (field, from, to);
    assert(seq![change].drop_last() =~= Seq::empty());
    if knot_field_text(change) is Some {
        assert(knot_parts(seq![change]) =~= seq![knot_field_text(change)->0]);
    }
}

/// The changes of a profile are told change by change, in order.
pub proof fn profile_changes_are_told_in_turn(
    a: Seq<(ProfileField, Option<Seq<char>>, Option<Seq<char>>)>,
    b: Seq<(ProfileField, Option<Seq<char>>, Option<Seq<char>>)>,
)
    ensures
        profile_parts(a + b) == profile_parts(a) + profile_parts(b),
    decreases b.len(),
{
    if b.len() == 0 {
        assert(a + b =~= a);
        assert(profile_parts(a) + profile_parts(b) =~= profile_parts(a));
    } else {
        assert((a + b).drop_last() =~= a + b.drop_last());
        profile_changes_are_told_in_turn(a, b.drop_last());
        assert(profile_parts(a + b) =~= profile_parts(a) + profile_parts(b));
    }
}

/// A profile's field is told with both its values where both are there and
/// differ, with the one that is there otherwise, and not at all where it stayed.
pub proof fn profile_changes_tell_their_values(
    field: ProfileField,
    from: Option<Seq<char>>,
    to: Option<Seq<char>>,
)
    ensures
        ({
            let parts = profile_parts(seq![(field, from, to)]);
            let key = match field {
                ProfileField::ModelRef => "model-ref"@,
                ProfileField::Provider => "provider"@,
                ProfileField::Model => "model"@,
                ProfileField::ThinkingLevel => "thinking-level"@,
                ProfileField::Timeout => "timeout"@,
            };
            &&& from == to ==> parts.len() == 0
            &&& from != to && from is Some && to is Some ==> parts == seq![
                key + " "@ + text::one_line(from->0) + "→"@ + text::one_line(to->0),
            ]
            &&& from is Some && to is None ==> parts == seq![
                key + " "@ + text::one_line(from->0) + "→ cleared"@,
            ]
            &&& from is None && to is Some ==> parts == seq![key + "="@ + text::one_line(to->0)]
        }),
{
    reveal_with_fuel(profile_parts, 2);
    let change = (field, from, to);
    assert(seq![change].drop_last() =~= Seq::empty());
    if profile_field_text(change) is Some {
        assert(profile_parts(seq![change]) =~= seq![profile_field_text(change)->0]);
    }
}

} // verus!
