//! Session-resume retries.
//!
//! When an agent invocation fails in a way that another attempt can mend, or
//! ends its turn without a response, the invocation is repeated in the same
//! agent session. A retry prompt is the run's own prompt with one note behind
//! it: a request for the final response, or, after an inactivity kill, what
//! went wrong and how to avoid it. The note of an earlier retry is not
//! repeated: the session has it. The arguments do grow: each retry adds its
//! session behind those of the attempt before it. An inactivity kill is
//! retried even when no session is known. Retries are limited in number and by
//! the profile's overall timeout, whichever comes first.

use crate::clock::format_timestamp;
use crate::entities::{AgentConfig, AgentConfigView, KnotId, LoomId, StrandPath};
use crate::errors::{PortError, PortErrorView};
use crate::events::{LoomEvent, LoomFact};
use crate::outside;
use crate::outside::Outside;
use crate::ports;
use crate::ports::{
    AgentOutput, AgentOutputView, AgentRunner, Answer, CompactionRecordView, LoomLogCall,
    LoomLogPort, RunRequest, RunnerCall,
};
use crate::text;
use crate::text::{clone_opt, decimal_text, is_blank, opt_or_empty};
use crate::time::TimeSpan;
use crate::trace;
use crate::trace::{Act, Trace};
use vstd::prelude::*;
use vstd::string::*;

verus! {

/// Maximum number of retry attempts (not counting the initial attempt).
pub const MAX_RETRIES: u32 = 10;

/// Default delay in seconds between attempts, to let transient errors pass.
pub const RETRY_DELAY_SECS: u64 = 10;

/// Whole seconds of budget that a retry needs. With less left, an attempt
/// would almost certainly time out.
pub const MIN_REMAINING_SECS: u64 = 5;

/// Longest session deadline of a single attempt under a budget, in seconds:
/// it leaves room in the budget for retries.
pub const MAX_ATTEMPT_TIMEOUT_SECS: u64 = 30;

/// The request behind the prompt of a retry.
pub const FINAL_RESPONSE_REQUEST: &'static str = "Please produce your final response, or continue if you have not finished.";

// ── What a run does ────────────────────────────────────────────────────

/// What a run is about: a strand, as a knot of a loom sees it.
pub struct Subject {
    pub loom_id: Seq<char>,
    pub knot_id: Seq<char>,
    pub strand_path: Seq<char>,
}

/// What stays the same over all attempts of a run.
pub struct PlanView {
    pub subject: Subject,
    pub strand_file_ref: Option<Seq<char>>,
    pub profile_prompt: Seq<char>,
    pub event_type: Seq<char>,
    pub knot_name: Option<Seq<char>>,
    /// The profile's overall timeout, when it sets one.
    pub budget: Option<TimeSpan>,
    /// How long to wait before a retry.
    pub delay: TimeSpan,
    /// When the run began.
    pub start: TimeSpan,
}

impl PlanView {
    /// How much time has passed since the run began.
    pub open spec fn elapsed(self, now: TimeSpan) -> TimeSpan {
        now.minus(self.start)
    }
}

/// Where a run stands between two attempts.
pub struct ResumeView {
    pub session_id: Option<Seq<char>>,
    /// The configuration of the last attempt.
    pub config: AgentConfigView,
    /// The run's own prompt.
    pub prompt: Seq<char>,
    /// The note for the next retry prompt, where a cause needs its own.
    pub note: Option<Seq<char>>,
    /// The inactivity kills so far.
    pub kills: nat,
    /// Why the last attempt failed.
    pub error: PortErrorView,
}

/// What the outside answered around the first attempt.
pub struct FirstIo {
    pub answer: Answer<AgentOutputView>,
    pub logged: Answer<()>,
    pub compacted: Seq<Answer<()>>,
}

/// What the outside answered around one retry.
pub struct RetryIo {
    /// The time before the delay.
    pub before: TimeSpan,
    /// The time after the delay.
    pub waited: TimeSpan,
    pub resumed: Answer<()>,
    /// The time when the attempt starts.
    pub started: TimeSpan,
    pub answer: Answer<AgentOutputView>,
    /// The time when the attempt has failed.
    pub ended: TimeSpan,
    pub logged: Answer<()>,
    pub compacted: Seq<Answer<()>>,
}

/// How an attempt leaves the run.
pub enum Turn {
    /// The run is over, with this result and this session.
    Done(Answer<AgentOutputView>, Option<Seq<char>>),
    /// Another attempt may follow.
    Next(ResumeView),
}

/// Everything an attempt does: the agent calls, the log calls, the waits
/// with the times they ended at, and how it leaves the run.
pub struct Attempt {
    pub calls: Seq<RunnerCall>,
    pub log: Seq<LoomLogCall>,
    pub pauses: Seq<(TimeSpan, TimeSpan)>,
    /// All of these, in the order in which they happen.
    pub acts: Seq<Act>,
    pub turn: Turn,
}

/// Everything a run does, and what it gives.
pub struct Run {
    pub calls: Seq<RunnerCall>,
    pub log: Seq<LoomLogCall>,
    pub pauses: Seq<(TimeSpan, TimeSpan)>,
    /// All of these, in the order in which they happen.
    pub acts: Seq<Act>,
    pub result: Answer<AgentOutputView>,
    pub session_id: Option<Seq<char>>,
}

/// No time at all.
pub open spec fn no_time() -> TimeSpan {
    TimeSpan { nanos: 0 }
}

/// The first of two options that is there.
pub open spec fn or_else(first: Option<Seq<char>>, second: Option<Seq<char>>) -> Option<Seq<char>> {
    if first is Some {
        first
    } else {
        second
    }
}

/// The deadline of an attempt: what is left of the budget, up to the longest
/// deadline of a single attempt. None without a budget.
pub open spec fn attempt_timeout(budget: Option<TimeSpan>, elapsed: TimeSpan) -> Option<TimeSpan> {
    match budget {
        Some(b) => Some(
            b.minus(elapsed).shorter(
                TimeSpan {
                    nanos: (MAX_ATTEMPT_TIMEOUT_SECS * crate::time::NANOS_PER_SEC) as u128,
                },
            ),
        ),
        None => None,
    }
}

/// Whether too little of the budget is left for a retry.
pub open spec fn too_late(budget: Option<TimeSpan>, elapsed: TimeSpan) -> bool {
    match budget {
        Some(b) => b.minus(elapsed).secs() < MIN_REMAINING_SECS,
        None => false,
    }
}

/// Whether the budget is used up.
pub open spec fn used_up(budget: Option<TimeSpan>, elapsed: TimeSpan) -> bool {
    match budget {
        Some(b) => elapsed.nanos >= b.nanos,
        None => false,
    }
}

/// The error of a run that ran out of budget.
pub open spec fn budget_error(
    attempt: nat,
    elapsed: TimeSpan,
    budget: TimeSpan,
    session_id: Option<Seq<char>>,
) -> PortErrorView {
    PortErrorView::Timeout {
        message: "overall timeout budget exhausted after "@ + text::decimal(attempt)
            + " attempt(s) ("@ + text::decimal(elapsed.secs()) + "s used of "@ + text::decimal(
            budget.secs(),
        ) + "s budget)"@,
        session_id,
    }
}

/// The inactivity window in words: in minutes where it is a whole number of
/// minutes.
pub open spec fn window_phrase(window_secs: u64) -> Seq<char> {
    if window_secs % 60 == 0 {
        text::decimal((window_secs / 60) as nat) + "-minute window"@
    } else {
        text::decimal(window_secs as nat) + "-second window"@
    }
}

/// The note behind the prompt that follows an inactivity kill.
pub open spec fn restart_note(silent_secs: u64, window_secs: u64) -> Seq<char> {
    "Your last call blocked for more than "@ + text::decimal(silent_secs as nat)
        + " seconds with no output, so your previous turn was stopped. If you have a long-running task, ensure it emits a progress update at least once within the "@
        + window_phrase(window_secs)
        + " (e.g. run it in the background and poll its output, or stream the output). Continue from where you left off and produce your final response when done."@
}

/// What an attempt asks of the agent.
pub open spec fn run_request(
    plan: PlanView,
    config: AgentConfigView,
    prompt: Seq<char>,
    timeout: Option<TimeSpan>,
) -> RunRequest {
    RunRequest {
        agent_config: config,
        strand_path: plan.subject.strand_path,
        strand_file_ref: plan.strand_file_ref,
        prompt,
        profile_prompt: plan.profile_prompt,
        event_type: plan.event_type,
        knot_name: plan.knot_name,
        timeout,
    }
}

/// An attempt ended without a response.
pub open spec fn empty_fact(subject: Subject, attempt: nat) -> LoomFact {
    LoomFact::KnotEmptyResponse {
        loom_id: subject.loom_id,
        knot_id: subject.knot_id,
        strand_path: subject.strand_path,
        attempt: attempt as u32,
    }
}

/// A retry is about to start.
pub open spec fn resumed_fact(
    subject: Subject,
    session_id: Option<Seq<char>>,
    attempt: nat,
) -> LoomFact {
    LoomFact::SessionResumed {
        loom_id: subject.loom_id,
        knot_id: subject.knot_id,
        strand_path: subject.strand_path,
        session_id: text::text_or_empty(session_id),
        attempt: attempt as u32,
    }
}

/// An attempt was stopped for inactivity.
pub open spec fn inactivity_fact(
    subject: Subject,
    session_id: Option<Seq<char>>,
    silent_secs: u64,
    window_secs: u64,
    blocked_call: Option<Seq<char>>,
    attempt: nat,
) -> LoomFact {
    LoomFact::AgentInactivity {
        loom_id: subject.loom_id,
        knot_id: subject.knot_id,
        strand_path: subject.strand_path,
        session_id: text::text_or_empty(session_id),
        silent_secs,
        window_secs,
        blocked_call,
        attempt: attempt as u32,
    }
}

/// A successful compaction was seen in an attempt.
pub open spec fn compacted_fact(
    subject: Subject,
    session_id: Option<Seq<char>>,
    record: CompactionRecordView,
    attempt: nat,
) -> LoomFact {
    LoomFact::ContextCompacted {
        loom_id: subject.loom_id,
        knot_id: subject.knot_id,
        strand_path: subject.strand_path,
        session_id: text::text_or_empty(session_id),
        reason: record.reason,
        tokens_before: record.tokens_before,
        attempt: attempt as u32,
    }
}

/// One fact per successful compaction, in order.
pub open spec fn compacted_facts(
    subject: Subject,
    session_id: Option<Seq<char>>,
    records: Seq<CompactionRecordView>,
    attempt: nat,
) -> Seq<LoomFact>
    decreases records.len(),
{
    if records.len() == 0 {
        Seq::empty()
    } else {
        let rest = compacted_facts(subject, session_id, records.drop_last(), attempt);
        if records.last().succeeded() {
            rest.push(compacted_fact(subject, session_id, records.last(), attempt))
        } else {
            rest
        }
    }
}

/// The facts about the compactions that an output reports.
pub open spec fn output_facts(subject: Subject, output: AgentOutputView, attempt: nat) -> Seq<
    LoomFact,
> {
    match output.metadata {
        Some(m) => compacted_facts(subject, m.session_id, m.compactions, attempt),
        None => Seq::empty(),
    }
}

/// The log call that appends a fact.
pub open spec fn append_call(fact: LoomFact, answer: Answer<()>) -> LoomLogCall {
    LoomLogCall::Append { fact, stamped: true, answer }
}

/// The log calls that append facts, in order.
pub open spec fn append_calls(facts: Seq<LoomFact>, answers: Seq<Answer<()>>) -> Seq<LoomLogCall> {
    Seq::new(facts.len(), |i: int| append_call(facts[i], answers[i]))
}

/// The error of an attempt without a response.
pub open spec fn no_response(session_id: Option<Seq<char>>) -> PortErrorView {
    PortErrorView::AgentNoResponse { message: "agent returned empty response"@, session_id }
}

/// How the first attempt leaves the run.
pub open spec fn first_turn(
    plan: PlanView,
    config: AgentConfigView,
    prompt: Seq<char>,
    session_id: Option<Seq<char>>,
    io: FirstIo,
) -> (Seq<LoomLogCall>, Turn) {
    match io.answer {
        Ok(output) => if text::blank(output.stdout) {
            let log = seq![append_call(empty_fact(plan.subject, 1), io.logged)];
            match io.logged {
                Err(e) => (log, Turn::Done(Err(e), session_id)),
                Ok(_) => match output.session_id() {
                    None => (
                        log,
                        Turn::Done(
                            Err(
                                PortErrorView::AgentNoResponse {
                                    message:
                                        "agent returned empty response (no session id — cannot request final response)"@,
                                    session_id: None,
                                },
                            ),
                            session_id,
                        ),
                    ),
                    Some(sid) => (
                        log,
                        Turn::Next(
                            ResumeView {
                                session_id: Some(sid),
                                config,
                                prompt,
                                note: None,
                                kills: 0,
                                error: no_response(Some(sid)),
                            },
                        ),
                    ),
                },
            }
        } else {
            (
                append_calls(output_facts(plan.subject, output, 1), io.compacted),
                Turn::Done(Ok(output), or_else(output.session_id(), session_id)),
            )
        },
        Err(e) => match e {
            PortErrorView::AgentInactivity { silent_secs, window_secs, blocked_call, .. } => {
                let fact = inactivity_fact(
                    plan.subject,
                    e.session_id(),
                    silent_secs,
                    window_secs,
                    blocked_call,
                    1,
                );
                let log = seq![append_call(fact, io.logged)];
                match io.logged {
                    Err(failed) => (log, Turn::Done(Err(failed), e.session_id())),
                    Ok(_) => (
                        log,
                        Turn::Next(
                            ResumeView {
                                session_id: e.session_id(),
                                config,
                                prompt,
                                note: Some(restart_note(silent_secs, window_secs)),
                                kills: 1,
                                error: e,
                            },
                        ),
                    ),
                }
            },
            _ => if e.resumable() && e.session_id() is Some {
                (
                    Seq::empty(),
                    Turn::Next(
                        ResumeView {
                            session_id: e.session_id(),
                            config,
                            prompt,
                            note: None,
                            kills: 0,
                            error: e,
                        },
                    ),
                )
            } else {
                (Seq::empty(), Turn::Done(Err(e), or_else(e.session_id(), session_id)))
            },
        },
    }
}

/// Everything the first attempt does.
pub open spec fn first_attempt(
    plan: PlanView,
    config: AgentConfigView,
    prompt: Seq<char>,
    session_id: Option<Seq<char>>,
    io: FirstIo,
) -> Attempt {
    let (log, turn) = first_turn(plan, config, prompt, session_id, io);
    let call = RunnerCall::ExecuteWithConfig {
        request: run_request(plan, config, prompt, attempt_timeout(plan.budget, no_time())),
        answer: io.answer,
    };
    Attempt {
        calls: seq![call],
        log,
        pauses: seq![(no_time(), plan.start)],
        acts: seq![Act::Pause(no_time(), plan.start), Act::Agent(call)] + trace::told(log),
        turn,
    }
}

/// The session of the next retry: the one the last error names, or else the
/// one known so far.
pub open spec fn retry_session(s: ResumeView) -> Option<Seq<char>> {
    or_else(s.error.session_id(), s.session_id)
}

/// A configuration that enters a session.
pub open spec fn in_session(config: AgentConfigView, session_id: Seq<char>) -> AgentConfigView {
    config.with_args(seq!["--session-id"@, session_id])
}

/// The configuration of the next retry: that of the attempt before it, which
/// enters the session where one is known.
pub open spec fn retry_config(s: ResumeView) -> AgentConfigView {
    match retry_session(s) {
        Some(sid) => in_session(s.config, sid),
        None => s.config,
    }
}

/// The note of the next retry: the one its cause needs, or else the request
/// for the final response.
pub open spec fn retry_note(s: ResumeView) -> Seq<char> {
    match s.note {
        Some(note) => note,
        None => FINAL_RESPONSE_REQUEST@,
    }
}

/// A prompt with a note behind it, two line breaks apart.
pub open spec fn noted(prompt: Seq<char>, note: Seq<char>) -> Seq<char> {
    prompt + "\n\n"@ + note
}

/// The prompt of the next retry: the run's own, with one note behind it.
pub open spec fn retry_prompt(s: ResumeView) -> Seq<char> {
    noted(s.prompt, retry_note(s))
}

/// How a retry leaves the run once the agent has answered, and what it logs
/// about the answer.
pub open spec fn answered_turn(
    plan: PlanView,
    attempt: nat,
    s: ResumeView,
    io: RetryIo,
) -> (Seq<LoomLogCall>, Turn) {
    let session = retry_session(s);
    let next = ResumeView {
        session_id: session,
        config: retry_config(s),
        prompt: s.prompt,
        note: None,
        kills: s.kills,
        error: no_response(session),
    };
    match io.answer {
        Ok(output) => if text::blank(output.stdout) {
            (seq![append_call(empty_fact(plan.subject, attempt + 1), io.logged)], Turn::Next(next))
        } else {
            (
                append_calls(output_facts(plan.subject, output, attempt + 1), io.compacted),
                Turn::Done(Ok(output), or_else(output.session_id(), session)),
            )
        },
        Err(e) => {
            let known = or_else(e.session_id(), session);
            if !e.resumable() {
                (Seq::empty(), Turn::Done(Err(e), known))
            } else if too_late(plan.budget, plan.elapsed(io.ended)) {
                (
                    Seq::empty(),
                    Turn::Done(
                        Err(
                            budget_error(
                                attempt,
                                plan.elapsed(io.ended),
                                plan.budget->0,
                                known,
                            ),
                        ),
                        known,
                    ),
                )
            } else {
                match e {
                    PortErrorView::AgentInactivity { silent_secs, window_secs, blocked_call, .. } => {
                        let fact = inactivity_fact(
                            plan.subject,
                            known,
                            silent_secs,
                            window_secs,
                            blocked_call,
                            attempt + 1,
                        );
                        (
                            seq![append_call(fact, io.logged)],
                            Turn::Next(
                                ResumeView {
                                    session_id: known,
                                    note: Some(restart_note(silent_secs, window_secs)),
                                    kills: s.kills + 1,
                                    error: e,
                                    ..next
                                },
                            ),
                        )
                    },
                    _ => (
                        Seq::empty(),
                        Turn::Next(ResumeView { session_id: known, error: e, ..next }),
                    ),
                }
            }
        },
    }
}

/// Everything a retry does.
pub open spec fn retry_attempt(
    plan: PlanView,
    attempt: nat,
    s: ResumeView,
    io: RetryIo,
) -> Attempt {
    let at_first = if plan.budget is Some {
        seq![(no_time(), io.before)]
    } else {
        Seq::empty()
    };
    let waited = at_first.push((plan.delay, io.waited));
    let session = retry_session(s);
    let resumed = append_call(resumed_fact(plan.subject, session, attempt), io.resumed);
    if too_late(plan.budget, plan.elapsed(io.before)) {
        Attempt {
            calls: Seq::empty(),
            log: Seq::empty(),
            pauses: at_first,
            acts: trace::paused(at_first),
            turn: Turn::Done(
                Err(budget_error(attempt, plan.elapsed(io.before), plan.budget->0, s.session_id)),
                s.session_id,
            ),
        }
    } else if used_up(plan.budget, plan.elapsed(io.waited)) {
        Attempt {
            calls: Seq::empty(),
            log: Seq::empty(),
            pauses: waited,
            acts: trace::paused(waited),
            turn: Turn::Done(
                Err(budget_error(attempt, plan.elapsed(io.waited), plan.budget->0, s.session_id)),
                s.session_id,
            ),
        }
    } else if io.resumed is Err {
        Attempt {
            calls: Seq::empty(),
            log: seq![resumed],
            pauses: waited,
            acts: trace::paused(waited).push(Act::Log(resumed)),
            turn: Turn::Done(Err(io.resumed->Err_0), session),
        }
    } else {
        let started = if plan.budget is Some {
            seq![(no_time(), io.started)]
        } else {
            Seq::empty()
        };
        let ended = if plan.budget is Some && io.answer is Err
            && io.answer->Err_0.resumable() {
            seq![(no_time(), io.ended)]
        } else {
            Seq::empty()
        };
        let call = RunnerCall::ExecuteWithConfig {
            request: run_request(
                plan,
                retry_config(s),
                retry_prompt(s),
                attempt_timeout(plan.budget, plan.elapsed(io.started)),
            ),
            answer: io.answer,
        };
        let (log, turn) = answered_turn(plan, attempt, s, io);
        Attempt {
            calls: seq![call],
            log: seq![resumed] + log,
            pauses: waited + started + ended,
            acts: trace::paused(waited).push(Act::Log(resumed)) + trace::paused(started).push(
                Act::Agent(call),
            ) + trace::paused(ended) + trace::told(log),
            turn,
        }
    }
}

/// What the profile's timeout adds to the error of a run out of retries.
pub open spec fn budget_suffix(budget: Option<TimeSpan>) -> Seq<char> {
    match budget {
        Some(b) => " (overall timeout: "@ + text::decimal(b.secs()) + "s)"@,
        None => Seq::empty(),
    }
}

/// The error of a run that ran out of retries: it tells the last cause.
pub open spec fn exhausted(plan: PlanView, s: ResumeView) -> PortErrorView {
    match s.error {
        PortErrorView::Timeout { .. } => PortErrorView::Timeout {
            message: "session resume exhausted "@ + text::decimal(MAX_RETRIES as nat) + " retries"@
                + budget_suffix(plan.budget),
            session_id: s.session_id,
        },
        PortErrorView::AgentInactivity { silent_secs, window_secs, blocked_call, .. } => {
            PortErrorView::AgentInactivity {
                message: "session resume exhausted "@ + text::decimal(MAX_RETRIES as nat)
                    + " retries after "@ + text::decimal(s.kills) + " inactivity kills"@
                    + budget_suffix(plan.budget),
                silent_secs,
                window_secs,
                blocked_call,
                session_id: s.session_id,
            }
        },
        _ => PortErrorView::AgentNoResponse {
            message: "agent returned empty response after "@ + text::decimal(
                (MAX_RETRIES + 1) as nat,
            ) + " attempts (session resume exhausted)"@,
            session_id: s.session_id,
        },
    }
}

/// A run that an attempt ends.
pub open spec fn ended(
    now: Attempt,
    result: Answer<AgentOutputView>,
    session_id: Option<Seq<char>>,
) -> Run {
    Run {
        calls: now.calls,
        log: now.log,
        pauses: now.pauses,
        acts: now.acts,
        result,
        session_id,
    }
}

/// A run that goes on behind an attempt.
pub open spec fn followed(now: Attempt, rest: Run) -> Run {
    Run {
        calls: now.calls + rest.calls,
        log: now.log + rest.log,
        pauses: now.pauses + rest.pauses,
        acts: now.acts + rest.acts,
        ..rest
    }
}

/// The run from a retry on, given what the outside answers around each.
pub open spec fn retries(plan: PlanView, attempt: nat, s: ResumeView, ios: Seq<RetryIo>) -> Run
    decreases MAX_RETRIES + 1 - attempt,
{
    if attempt > MAX_RETRIES {
        Run {
            calls: Seq::empty(),
            log: Seq::empty(),
            pauses: Seq::empty(),
            acts: Seq::empty(),
            result: Err(exhausted(plan, s)),
            session_id: s.session_id,
        }
    } else {
        let now = retry_attempt(plan, attempt, s, ios[attempt - 1]);
        match now.turn {
            Turn::Done(result, session_id) => ended(now, result, session_id),
            Turn::Next(next) => followed(now, retries(plan, attempt + 1, next, ios)),
        }
    }
}

/// A whole run, given what the outside answers: around the first attempt, and
/// around each retry that is made.
pub open spec fn whole_run(
    plan: PlanView,
    config: AgentConfigView,
    prompt: Seq<char>,
    session_id: Option<Seq<char>>,
    first: FirstIo,
    ios: Seq<RetryIo>,
) -> Run {
    let now = first_attempt(plan, config, prompt, session_id, first);
    match now.turn {
        Turn::Done(result, session_id) => ended(now, result, session_id),
        Turn::Next(next) => followed(now, retries(plan, 1, next, ios)),
    }
}

/// A whole run that began at a time.
pub open spec fn run_from(
    start: TimeSpan,
    plan: PlanView,
    config: AgentConfigView,
    prompt: Seq<char>,
    session_id: Option<Seq<char>>,
    first: FirstIo,
    ios: Seq<RetryIo>,
) -> Run {
    whole_run(PlanView { start, ..plan }, config, prompt, session_id, first, ios)
}

// ── Notes and errors ───────────────────────────────────────────────────

/// A request for events, and its answer.
pub open spec fn event_call(request: RunRequest, answer: Answer<AgentOutputView>) -> RunnerCall {
    RunnerCall::ExecuteWithConfig { request, answer }
}

/// The request is made in a session: it ends with the session's argument.
pub open spec fn enters_session(call: RunnerCall) -> bool {
    match call {
        RunnerCall::ExecuteWithConfig { request, .. } => {
            let args = request.agent_config.extra_args;
            args.len() >= 2 && args[args.len() - 2] == "--session-id"@
        },
        _ => false,
    }
}

/// The delay before a retry: the milliseconds set for it, or else the
/// default.
pub open spec fn delay_set(setting: Option<u64>) -> TimeSpan {
    match setting {
        Some(millis) => TimeSpan { nanos: (millis * crate::time::NANOS_PER_MILLI) as u128 },
        None => TimeSpan { nanos: (RETRY_DELAY_SECS * crate::time::NANOS_PER_SEC) as u128 },
    }
}

/// Build the note that tells the agent of its inactivity kill.
pub fn inactivity_restart_note(silent_secs: u64, window_secs: u64) -> (note: String)
    ensures
        note@ == restart_note(silent_secs, window_secs),
{
    let mut note = "Your last call blocked for more than ".to_string();
    note.append(decimal_text(silent_secs as u128).as_str());
    note.append(
        " seconds with no output, so your previous turn was stopped. If you have a long-running task, ensure it emits a progress update at least once within the ",
    );
    let mut window = if window_secs % 60 == 0 {
        decimal_text((window_secs / 60) as u128)
    } else {
        decimal_text(window_secs as u128)
    };
    if window_secs % 60 == 0 {
        window.append("-minute window");
    } else {
        window.append("-second window");
    }
    note.append(window.as_str());
    note.append(
        " (e.g. run it in the background and poll its output, or stream the output). Continue from where you left off and produce your final response when done.",
    );
    note
}

/// The error of a run that ran out of budget.
fn out_of_budget(
    attempt: u32,
    elapsed: TimeSpan,
    budget: TimeSpan,
    session_id: &Option<String>,
) -> (error: PortError)
    ensures
        error@ == budget_error(attempt as nat, elapsed, budget, text::opt_text(*session_id)),
{
    let mut message = "overall timeout budget exhausted after ".to_string();
    message.append(decimal_text(attempt as u128).as_str());
    message.append(" attempt(s) (");
    message.append(decimal_text(elapsed.as_secs()).as_str());
    message.append("s used of ");
    message.append(decimal_text(budget.as_secs()).as_str());
    message.append("s budget)");
    PortError::Timeout { message, session_id: clone_opt(session_id) }
}

/// The delay before a retry: the milliseconds set for it, or else the
/// default.
pub fn retry_delay(setting: Option<u64>) -> (delay: TimeSpan)
    ensures
        delay == delay_set(setting),
{
    match setting {
        Some(millis) => TimeSpan::from_millis(millis),
        None => TimeSpan::from_secs(RETRY_DELAY_SECS),
    }
}

// ── Runs ───────────────────────────────────────────────────────────────

/// What stays the same over all attempts of a run.
pub struct ResumePlan {
    pub loom_id: LoomId,
    pub knot_id: KnotId,
    pub strand_path: StrandPath,
    pub strand_file_ref: Option<StrandPath>,
    pub profile_prompt: String,
    pub event_type: String,
    pub knot_name: Option<String>,
    pub budget: Option<TimeSpan>,
    pub delay: TimeSpan,
    pub start: TimeSpan,
}

impl View for ResumePlan {
    type V = PlanView;

    open spec fn view(&self) -> PlanView {
        PlanView {
            subject: Subject {
                loom_id: self.loom_id@,
                knot_id: self.knot_id@,
                strand_path: self.strand_path@,
            },
            strand_file_ref: text::opt_view(self.strand_file_ref),
            profile_prompt: self.profile_prompt@,
            event_type: self.event_type@,
            knot_name: text::opt_text(self.knot_name),
            budget: self.budget,
            delay: self.delay,
            start: self.start,
        }
    }
}

/// Where a run stands between two attempts.
pub struct ResumeState {
    pub session_id: Option<String>,
    pub config: AgentConfig,
    pub prompt: String,
    pub note: Option<String>,
    pub kills: u32,
    pub error: PortError,
}

impl View for ResumeState {
    type V = ResumeView;

    open spec fn view(&self) -> ResumeView {
        ResumeView {
            session_id: text::opt_text(self.session_id),
            config: self.config@,
            prompt: self.prompt@,
            note: text::opt_text(self.note),
            kills: self.kills as nat,
            error: self.error@,
        }
    }
}

/// How an attempt leaves the run.
pub enum ResumeTurn {
    Done(Result<AgentOutput, PortError>, Option<String>),
    Next(ResumeState),
}

impl View for ResumeTurn {
    type V = Turn;

    open spec fn view(&self) -> Turn {
        match self {
            ResumeTurn::Done(result, session_id) => Turn::Done(
                ports::answered(*result),
                text::opt_text(*session_id),
            ),
            ResumeTurn::Next(state) => Turn::Next(state@),
        }
    }
}

/// Copy an optional strand path.
fn clone_strand(path: &Option<StrandPath>) -> (copy: Option<StrandPath>)
    ensures
        text::opt_view(copy) == text::opt_view(*path),
{
    match path {
        Some(p) => Some(p.clone()),
        None => None,
    }
}

/// The first of two optional strings that is there.
fn first_known(first: Option<String>, second: &Option<String>) -> (known: Option<String>)
    ensures
        text::opt_text(known) == or_else(text::opt_text(first), text::opt_text(*second)),
{
    match first {
        Some(s) => Some(s),
        None => clone_opt(second),
    }
}

/// The session that an error names, if it does.
fn error_session(error: &PortError) -> (session_id: Option<String>)
    ensures
        text::opt_text(session_id) == error@.session_id(),
{
    match error.session_id() {
        Some(s) => Some(s.clone()),
        None => None,
    }
}

/// Append one `ContextCompacted` event per successful compaction that the
/// output reports. What the log answers is not looked at: it must never fail
/// a strand.
pub fn log_compactions<L: LoomLogPort>(
    loom_log: &mut L,
    loom_id: &LoomId,
    knot_id: &KnotId,
    strand_path: &StrandPath,
    attempt: u32,
    output: &AgentOutput,
    trace: &mut Trace,
)
    ensures
        ({
            let subject = Subject {
                loom_id: loom_id@,
                knot_id: knot_id@,
                strand_path: strand_path@,
            };
            let facts = output_facts(subject, output@, attempt as nat);
            exists|answers: Seq<Answer<()>>|
                {
                    let log = #[trigger] append_calls(facts, answers);
                    &&& final(loom_log).calls() == old(loom_log).calls() + log
                    &&& final(trace).acts() == old(trace).acts() + trace::told(log)
                }
        }),
{
    let ghost subject = Subject {
        loom_id: loom_id@,
        knot_id: knot_id@,
        strand_path: strand_path@,
    };
    let ghost mut answers: Seq<Answer<()>> = Seq::empty();
    let ghost before = loom_log.calls();
    let ghost earlier = trace.acts();
    match &output.metadata {
        None => {
            assert(before + append_calls(Seq::empty(), answers) =~= before);
            assert(earlier + trace::told(append_calls(Seq::empty(), answers)) =~= earlier);
        },
        Some(metadata) => {
            let ghost records = text::views(metadata.compactions@);
            let ghost session = text::opt_text(metadata.session_id);
            assert(before + append_calls(Seq::empty(), answers) =~= before);
            assert(earlier + trace::told(append_calls(Seq::empty(), answers)) =~= earlier);
            for i in 0..metadata.compactions.len()
                invariant
                    output.metadata == Some(*metadata),
                    records == text::views(metadata.compactions@),
                    session == text::opt_text(metadata.session_id),
                    subject == (Subject {
                        loom_id: loom_id@,
                        knot_id: knot_id@,
                        strand_path: strand_path@,
                    }),
                    answers.len() == compacted_facts(
                        subject,
                        session,
                        records.take(i as int),
                        attempt as nat,
                    ).len(),
                    loom_log.calls() == before + append_calls(
                        compacted_facts(subject, session, records.take(i as int), attempt as nat),
                        answers,
                    ),
                    trace.acts() == earlier + trace::told(
                        append_calls(
                            compacted_facts(
                                subject,
                                session,
                                records.take(i as int),
                                attempt as nat,
                            ),
                            answers,
                        ),
                    ),
            {
                let record = &metadata.compactions[i];
                let ghost facts = compacted_facts(
                    subject,
                    session,
                    records.take(i as int),
                    attempt as nat,
                );
                assert(records.take(i + 1).drop_last() =~= records.take(i as int));
                assert(records.take(i + 1).last() == record@);
                if record.error.is_none() && !record.aborted {
                    let answer = trace.tell(
                        loom_log,
                        LoomEvent::ContextCompacted {
                            loom_id: loom_id.clone(),
                            knot_id: knot_id.clone(),
                            strand_path: strand_path.clone(),
                            session_id: opt_or_empty(&metadata.session_id),
                            reason: record.reason.clone(),
                            tokens_before: record.tokens_before,
                            attempt,
                            timestamp: format_timestamp(),
                        },
                    );
                    proof {
                        let fact = compacted_fact(subject, session, record@, attempt as nat);
                        let grown = answers.push(ports::done(answer));
                        assert(append_calls(facts.push(fact), grown) =~= append_calls(
                            facts,
                            answers,
                        ).push(append_call(fact, ports::done(answer))));
                        assert(before + append_calls(facts.push(fact), grown) =~= (before
                            + append_calls(facts, answers)).push(
                            append_call(fact, ports::done(answer)),
                        ));
                        assert(earlier + trace::told(append_calls(facts.push(fact), grown))
                            =~= (earlier + trace::told(append_calls(facts, answers))).push(
                            Act::Log(append_call(fact, ports::done(answer))),
                        ));
                        answers = grown;
                    }
                }
            }
            assert(records.take(records.len() as int) =~= records);
        },
    }
    let ghost log = append_calls(output_facts(subject, output@, attempt as nat), answers);
    assert(loom_log.calls() == before + log);
    assert(trace.acts() == earlier + trace::told(log));
}

/// One invocation of the agent.
fn run_attempt<R: AgentRunner>(
    trace: &mut Trace,
    agent_runner: &mut R,
    plan: &ResumePlan,
    config: &AgentConfig,
    prompt: &String,
    timeout: Option<TimeSpan>,
) -> (answer: Result<AgentOutput, PortError>)
    ensures
        ({
            let call = RunnerCall::ExecuteWithConfig {
                request: run_request(plan@, config@, prompt@, timeout),
                answer: ports::answered(answer),
            };
            &&& final(agent_runner).calls() == old(agent_runner).calls().push(call)
            &&& final(trace).acts() == old(trace).acts().push(Act::Agent(call))
        }),
{
    trace.run(
        agent_runner,
        config,
        plan.strand_path.clone(),
        clone_strand(&plan.strand_file_ref),
        prompt.clone(),
        plan.profile_prompt.clone(),
        plan.event_type.clone(),
        clone_opt(&plan.knot_name),
        timeout,
    )
}

/// The deadline of an attempt that starts after this much time.
fn deadline(budget: Option<TimeSpan>, elapsed: TimeSpan) -> (timeout: Option<TimeSpan>)
    ensures
        timeout == attempt_timeout(budget, elapsed),
{
    match budget {
        Some(b) => Some(
            b.saturating_sub(elapsed).at_most(TimeSpan::from_secs(MAX_ATTEMPT_TIMEOUT_SECS)),
        ),
        None => None,
    }
}

/// Append the event of an attempt that ended without a response.
fn log_empty_response<L: LoomLogPort>(
    trace: &mut Trace,
    loom_log: &mut L,
    plan: &ResumePlan,
    attempt: u32,
) -> (answer: Result<(), PortError>)
    ensures
        ({
            let call = append_call(
                empty_fact(plan@.subject, attempt as nat),
                ports::done(answer),
            );
            &&& final(loom_log).calls() == old(loom_log).calls().push(call)
            &&& final(trace).acts() == old(trace).acts().push(Act::Log(call))
        }),
{
    trace.tell(
        loom_log,
        LoomEvent::KnotEmptyResponse {
            loom_id: plan.loom_id.clone(),
            knot_id: plan.knot_id.clone(),
            strand_path: plan.strand_path.clone(),
            attempt,
            timestamp: format_timestamp(),
        },
    )
}

/// Append the event of an attempt that was stopped for inactivity.
fn log_inactivity<L: LoomLogPort>(
    trace: &mut Trace,
    loom_log: &mut L,
    plan: &ResumePlan,
    session_id: &Option<String>,
    silent_secs: u64,
    window_secs: u64,
    blocked_call: &Option<String>,
    attempt: u32,
) -> (answer: Result<(), PortError>)
    ensures
        ({
            let call = append_call(
                inactivity_fact(
                    plan@.subject,
                    text::opt_text(*session_id),
                    silent_secs,
                    window_secs,
                    text::opt_text(*blocked_call),
                    attempt as nat,
                ),
                ports::done(answer),
            );
            &&& final(loom_log).calls() == old(loom_log).calls().push(call)
            &&& final(trace).acts() == old(trace).acts().push(Act::Log(call))
        }),
{
    trace.tell(
        loom_log,
        LoomEvent::AgentInactivity {
            loom_id: plan.loom_id.clone(),
            knot_id: plan.knot_id.clone(),
            strand_path: plan.strand_path.clone(),
            session_id: opt_or_empty(session_id),
            silent_secs,
            window_secs,
            blocked_call: clone_opt(blocked_call),
            attempt,
            timestamp: format_timestamp(),
        },
    )
}

/// Append the events of the compactions in an output, and say what the log
/// answered.
fn note_compactions<L: LoomLogPort>(
    trace: &mut Trace,
    loom_log: &mut L,
    plan: &ResumePlan,
    attempt: u32,
    output: &AgentOutput,
) -> (answers: Ghost<Seq<Answer<()>>>)
    ensures
        ({
            let log = append_calls(output_facts(plan@.subject, output@, attempt as nat), answers@);
            &&& final(loom_log).calls() == old(loom_log).calls() + log
            &&& final(trace).acts() == old(trace).acts() + trace::told(log)
        }),
{
    let ghost before = loom_log.calls();
    let ghost earlier = trace.acts();
    log_compactions(
        loom_log,
        &plan.loom_id,
        &plan.knot_id,
        &plan.strand_path,
        attempt,
        output,
        trace,
    );
    let ghost facts = output_facts(plan@.subject, output@, attempt as nat);
    let ghost answers = choose|answers: Seq<Answer<()>>|
        {
            let log = #[trigger] append_calls(facts, answers);
            &&& loom_log.calls() == before + log
            &&& trace.acts() == earlier + trace::told(log)
        };
    Ghost(answers)
}

/// Make the first attempt.
fn make_first_attempt<R: AgentRunner, L: LoomLogPort>(
    trace: &mut Trace,
    agent_runner: &mut R,
    loom_log: &mut L,
    plan: &ResumePlan,
    config: AgentConfig,
    prompt: String,
    session_id: &Option<String>,
) -> (r: (ResumeTurn, Ghost<FirstIo>))
    ensures
        ({
            let now = first_attempt(plan@, config@, prompt@, text::opt_text(*session_id), r.1@);
            &&& r.0@ == now.turn
            &&& final(agent_runner).calls() == old(agent_runner).calls() + now.calls
            &&& final(loom_log).calls() == old(loom_log).calls() + now.log
            &&& final(trace).acts() == old(trace).acts() + seq![Act::Agent(now.calls[0])]
                + trace::told(now.log)
        }),
        r.0 is Next ==> r.0->Next_0.kills <= 1,
{
    let ghost before = loom_log.calls();
    let answer = run_attempt(
        trace,
        agent_runner,
        plan,
        &config,
        &prompt,
        deadline(plan.budget, TimeSpan { nanos: 0 }),
    );
    let ghost mut io = FirstIo {
        answer: ports::answered(answer),
        logged: Ok(()),
        compacted: Seq::empty(),
    };
    match answer {
        Ok(output) => {
            if is_blank(output.stdout.as_str()) {
                let logged = log_empty_response(trace, loom_log, plan, 1);
                proof {
                    io = FirstIo { logged: ports::done(logged), ..io };
                }
                match logged {
                    Err(e) => (ResumeTurn::Done(Err(e), clone_opt(session_id)), Ghost(io)),
                    Ok(_) => match output.session_id() {
                        None => (
                            ResumeTurn::Done(
                                Err(
                                    PortError::AgentNoResponse {
                                        message:
                                            "agent returned empty response (no session id — cannot request final response)".to_string(),
                                        session_id: None,
                                    },
                                ),
                                clone_opt(session_id),
                            ),
                            Ghost(io),
                        ),
                        Some(sid) => (
                            ResumeTurn::Next(
                                ResumeState {
                                    session_id: Some(sid.clone()),
                                    config,
                                    prompt,
                                    note: None,
                                    kills: 0,
                                    error: PortError::AgentNoResponse {
                                        message: "agent returned empty response".to_string(),
                                        session_id: Some(sid),
                                    },
                                },
                            ),
                            Ghost(io),
                        ),
                    },
                }
            } else {
                let known = first_known(output.session_id(), session_id);
                let answers = note_compactions(trace, loom_log, plan, 1, &output);
                proof {
                    io = FirstIo { compacted: answers@, ..io };
                }
                (ResumeTurn::Done(Ok(output), known), Ghost(io))
            }
        },
        Err(e) => {
            let known = error_session(&e);
            match &e {
                PortError::AgentInactivity { silent_secs, window_secs, blocked_call, .. } => {
                    let note = inactivity_restart_note(*silent_secs, *window_secs);
                    let logged = log_inactivity(
                        trace,
                        loom_log,
                        plan,
                        &known,
                        *silent_secs,
                        *window_secs,
                        blocked_call,
                        1,
                    );
                    proof {
                        io = FirstIo { logged: ports::done(logged), ..io };
                    }
                    match logged {
                        Err(failed) => (ResumeTurn::Done(Err(failed), known), Ghost(io)),
                        Ok(_) => (
                            ResumeTurn::Next(
                                ResumeState {
                                    session_id: known,
                                    config,
                                    prompt,
                                    note: Some(note),
                                    kills: 1,
                                    error: e,
                                },
                            ),
                            Ghost(io),
                        ),
                    }
                },
                _ => if e.is_resumable() && known.is_some() {
                    assert(before + Seq::<LoomLogCall>::empty() =~= before);
                    (
                        ResumeTurn::Next(
                            ResumeState {
                                session_id: known,
                                config,
                                prompt,
                                note: None,
                                kills: 0,
                                error: e,
                            },
                        ),
                        Ghost(io),
                    )
                } else {
                    assert(before + Seq::<LoomLogCall>::empty() =~= before);
                    let session = first_known(known, session_id);
                    (ResumeTurn::Done(Err(e), session), Ghost(io))
                },
            }
        },
    }
}

/// Wait for the next retry, while the budget lasts. Gives the error of a
/// budget that does not, and the times read before and after the wait.
fn wait_for_retry<C: Fn(&TimeSpan) -> TimeSpan>(
    trace: &mut Trace,
    plan: &ResumePlan,
    attempt: u32,
    session_id: &Option<String>,
    clock: &mut Outside<TimeSpan, TimeSpan, C>,
) -> (r: (Option<PortError>, Ghost<(TimeSpan, TimeSpan)>))
    requires
        old(clock).ready(),
    ensures
        ({
            let (before, waited) = r.1@;
            let at_first = if plan.budget is Some {
                seq![(no_time(), before)]
            } else {
                Seq::empty()
            };
            let session = text::opt_text(*session_id);
            if too_late(plan.budget, plan@.elapsed(before)) {
                &&& text::opt_view(r.0) == Some(
                    budget_error(
                        attempt as nat,
                        plan@.elapsed(before),
                        plan.budget->0,
                        session,
                    ),
                )
                &&& final(clock).calls() == old(clock).calls() + at_first
                &&& final(trace).acts() == old(trace).acts() + trace::paused(at_first)
            } else {
                &&& text::opt_view(r.0) == (if used_up(plan.budget, plan@.elapsed(waited)) {
                    Some(
                        budget_error(
                            attempt as nat,
                            plan@.elapsed(waited),
                            plan.budget->0,
                            session,
                        ),
                    )
                } else {
                    None
                })
                &&& final(clock).calls() == old(clock).calls() + at_first.push(
                    (plan.delay, waited),
                )
                &&& final(trace).acts() == old(trace).acts() + trace::paused(
                    at_first.push((plan.delay, waited)),
                )
            }
        }),
        final(clock).source() == old(clock).source(),
        final(clock).ready(),
{
    match plan.budget {
        Some(budget) => {
            let before = trace.pause(clock, &TimeSpan { nanos: 0 });
            let elapsed = before.saturating_sub(plan.start);
            if budget.saturating_sub(elapsed).as_secs() < MIN_REMAINING_SECS as u128 {
                return (
                    Some(out_of_budget(attempt, elapsed, budget, session_id)),
                    Ghost((before, no_time())),
                );
            }
            let waited = trace.pause(clock, &plan.delay);
            let elapsed = waited.saturating_sub(plan.start);
            if elapsed.nanos >= budget.nanos {
                (
                    Some(out_of_budget(attempt, elapsed, budget, session_id)),
                    Ghost((before, waited)),
                )
            } else {
                (None, Ghost((before, waited)))
            }
        },
        None => {
            let waited = trace.pause(clock, &plan.delay);
            (None, Ghost((no_time(), waited)))
        },
    }
}

/// The configuration of a retry in a session, where one is known.
fn entering(state: &ResumeState, session_id: &Option<String>) -> (config: AgentConfig)
    requires
        text::opt_text(*session_id) == retry_session(state@),
    ensures
        config@ == retry_config(state@),
{
    broadcast use text::texts_push;

    let mut config = state.config.clone();
    let ghost args = config@.extra_args;
    if let Some(sid) = session_id {
        config.extra_args.push("--session-id".to_string());
        config.extra_args.push(sid.clone());
        assert(config@.extra_args =~= args + seq!["--session-id"@, sid@]);
    }
    config
}

/// The prompt of a retry.
fn asking_again(state: &ResumeState) -> (prompt: String)
    ensures
        prompt@ == retry_prompt(state@),
{
    let mut prompt = state.prompt.clone();
    prompt.append("\n\n");
    match &state.note {
        Some(note) => {
            prompt.append(note.as_str());
        },
        None => {
            prompt.append(FINAL_RESPONSE_REQUEST);
        },
    }
    prompt
}

/// The state that an attempt without a response leaves behind.
fn unanswered(state: ResumeState, config: AgentConfig, session_id: Option<String>) -> (next:
    ResumeState)
    requires
        config@ == retry_config(state@),
        text::opt_text(session_id) == retry_session(state@),
    ensures
        next@ == (ResumeView {
            session_id: retry_session(state@),
            config: retry_config(state@),
            note: None,
            error: no_response(retry_session(state@)),
            ..state@
        }),
        next.kills == state.kills,
{
    ResumeState {
        session_id: clone_opt(&session_id),
        config,
        prompt: state.prompt,
        note: None,
        kills: state.kills,
        error: PortError::AgentNoResponse {
            message: "agent returned empty response".to_string(),
            session_id,
        },
    }
}

/// What the outside answers once the agent has answered a retry.
pub struct SettleIo {
    pub ended: TimeSpan,
    pub logged: Answer<()>,
    pub compacted: Seq<Answer<()>>,
}

/// Log what came of a retry, and decide how it leaves the run. `next` is the
/// state that the retry leaves behind without a response.
fn settle_retry<L: LoomLogPort, C: Fn(&TimeSpan) -> TimeSpan>(
    trace: &mut Trace,
    loom_log: &mut L,
    plan: &ResumePlan,
    attempt: u32,
    Ghost(s): Ghost<ResumeView>,
    next: ResumeState,
    answer: Result<AgentOutput, PortError>,
    clock: &mut Outside<TimeSpan, TimeSpan, C>,
) -> (r: (ResumeTurn, Ghost<SettleIo>))
    requires
        old(clock).ready(),
        1 <= attempt <= MAX_RETRIES,
        next.kills <= attempt,
        next@ == (ResumeView {
            session_id: retry_session(s),
            config: retry_config(s),
            note: None,
            error: no_response(retry_session(s)),
            ..s
        }),
    ensures
        forall|io: RetryIo|
            #![trigger answered_turn(plan@, attempt as nat, s, io)]
            io.answer == ports::answered(answer) && io.ended == r.1@.ended && io.logged
                == r.1@.logged && io.compacted == r.1@.compacted ==> {
                let (log, turn) = answered_turn(plan@, attempt as nat, s, io);
                let ended = if plan.budget is Some && io.answer is Err
                    && io.answer->Err_0.resumable() {
                    seq![(no_time(), io.ended)]
                } else {
                    Seq::empty()
                };
                &&& r.0@ == turn
                &&& final(loom_log).calls() == old(loom_log).calls() + log
                &&& final(clock).calls() == old(clock).calls() + ended
                &&& final(trace).acts() == old(trace).acts() + trace::paused(ended)
                    + trace::told(log)
            },
        final(clock).source() == old(clock).source(),
        final(clock).ready(),
        r.0 is Next ==> r.0->Next_0.kills <= attempt + 1,
{
    let ghost before = loom_log.calls();
    let ghost mut io = SettleIo { ended: no_time(), logged: Ok(()), compacted: Seq::empty() };
    assert(before + Seq::<LoomLogCall>::empty() =~= before);
    match answer {
        Ok(output) => {
            if is_blank(output.stdout.as_str()) {
                let logged = log_empty_response(trace, loom_log, plan, attempt + 1);
                proof {
                    io = SettleIo { logged: ports::done(logged), ..io };
                }
                (ResumeTurn::Next(next), Ghost(io))
            } else {
                let known = first_known(output.session_id(), &next.session_id);
                let answers = note_compactions(trace, loom_log, plan, attempt + 1, &output);
                proof {
                    io = SettleIo { compacted: answers@, ..io };
                }
                (ResumeTurn::Done(Ok(output), known), Ghost(io))
            }
        },
        Err(e) => {
            let known = first_known(error_session(&e), &next.session_id);
            if !e.is_resumable() {
                return (ResumeTurn::Done(Err(e), known), Ghost(io));
            }
            if let Some(budget) = plan.budget {
                let ended = trace.pause(clock, &TimeSpan { nanos: 0 });
                proof {
                    io = SettleIo { ended, ..io };
                }
                let elapsed = ended.saturating_sub(plan.start);
                if budget.saturating_sub(elapsed).as_secs() < MIN_REMAINING_SECS as u128 {
                    let error = out_of_budget(attempt, elapsed, budget, &known);
                    return (ResumeTurn::Done(Err(error), known), Ghost(io));
                }
            }
            match &e {
                PortError::AgentInactivity { silent_secs, window_secs, blocked_call, .. } => {
                    let note = inactivity_restart_note(*silent_secs, *window_secs);
                    let logged = log_inactivity(
                        trace,
                        loom_log,
                        plan,
                        &known,
                        *silent_secs,
                        *window_secs,
                        blocked_call,
                        attempt + 1,
                    );
                    proof {
                        io = SettleIo { logged: ports::done(logged), ..io };
                    }
                    let stopped = ResumeState {
                        session_id: known,
                        config: next.config,
                        prompt: next.prompt,
                        note: Some(note),
                        kills: next.kills + 1,
                        error: e,
                    };
                    (ResumeTurn::Next(stopped), Ghost(io))
                },
                _ => {
                    let failed = ResumeState {
                        session_id: known,
                        config: next.config,
                        prompt: next.prompt,
                        note: None,
                        kills: next.kills,
                        error: e,
                    };
                    (ResumeTurn::Next(failed), Ghost(io))
                },
            }
        },
    }
}

/// Make a retry.
fn make_retry<R: AgentRunner, L: LoomLogPort, C: Fn(&TimeSpan) -> TimeSpan>(
    trace: &mut Trace,
    agent_runner: &mut R,
    loom_log: &mut L,
    plan: &ResumePlan,
    attempt: u32,
    state: ResumeState,
    clock: &mut Outside<TimeSpan, TimeSpan, C>,
) -> (r: (ResumeTurn, Ghost<RetryIo>))
    requires
        old(clock).ready(),
        1 <= attempt <= MAX_RETRIES,
        state.kills <= attempt,
    ensures
        ({
            let now = retry_attempt(plan@, attempt as nat, state@, r.1@);
            &&& r.0@ == now.turn
            &&& final(agent_runner).calls() == old(agent_runner).calls() + now.calls
            &&& final(loom_log).calls() == old(loom_log).calls() + now.log
            &&& final(clock).calls() == old(clock).calls() + now.pauses
            &&& final(trace).acts() == old(trace).acts() + now.acts
        }),
        final(clock).source() == old(clock).source(),
        final(clock).ready(),
        r.0 is Next ==> r.0->Next_0.kills <= attempt + 1,
{
    let ghost s = state@;
    let ghost log = loom_log.calls();
    let ghost calls = agent_runner.calls();
    let ghost pauses = clock.calls();
    assert(log + Seq::<LoomLogCall>::empty() =~= log);
    assert(calls + Seq::<RunnerCall>::empty() =~= calls);
    let (late, Ghost(waits)) = wait_for_retry(trace, plan, attempt, &state.session_id, clock);
    let ghost mut io = RetryIo {
        before: waits.0,
        waited: waits.1,
        resumed: Ok(()),
        started: no_time(),
        answer: Err(s.error),
        ended: no_time(),
        logged: Ok(()),
        compacted: Seq::empty(),
    };
    if let Some(e) = late {
        return (ResumeTurn::Done(Err(e), state.session_id), Ghost(io));
    }
    let session_id = first_known(error_session(&state.error), &state.session_id);
    let config = entering(&state, &session_id);
    let prompt = asking_again(&state);
    let next = unanswered(state, config, session_id);
    let resumed = trace.tell(
        loom_log,
        LoomEvent::SessionResumed {
            loom_id: plan.loom_id.clone(),
            knot_id: plan.knot_id.clone(),
            strand_path: plan.strand_path.clone(),
            session_id: opt_or_empty(&next.session_id),
            attempt,
            timestamp: format_timestamp(),
        },
    );
    proof {
        io = RetryIo { resumed: ports::done(resumed), ..io };
    }
    let ghost resumed_call = append_call(
        resumed_fact(plan@.subject, retry_session(s), attempt as nat),
        io.resumed,
    );
    assert(loom_log.calls() =~= log + seq![resumed_call]);
    if let Err(e) = resumed {
        return (ResumeTurn::Done(Err(e), next.session_id), Ghost(io));
    }
    let started = match plan.budget {
        Some(_) => trace.pause(clock, &TimeSpan { nanos: 0 }),
        None => TimeSpan { nanos: 0 },
    };
    let answer = run_attempt(
        trace,
        agent_runner,
        plan,
        &next.config,
        &prompt,
        deadline(plan.budget, started.saturating_sub(plan.start)),
    );
    let ghost given = ports::answered(answer);
    let ghost middle = loom_log.calls();
    let (turn, Ghost(settled)) = settle_retry(trace, loom_log, plan, attempt, Ghost(s), next, answer, clock);
    proof {
        io = RetryIo {
            started,
            answer: given,
            ended: settled.ended,
            logged: settled.logged,
            compacted: settled.compacted,
            ..io
        };
        let (after, _) = answered_turn(plan@, attempt as nat, s, io);
        assert(loom_log.calls() =~= log + (seq![resumed_call] + after));
        let now = retry_attempt(plan@, attempt as nat, s, io);
        assert(clock.calls() =~= pauses + now.pauses);
    }
    (turn, Ghost(io))
}

/// A retry's answers play no part in the run behind it.
proof fn earlier_answers_are_past(
    plan: PlanView,
    attempt: nat,
    s: ResumeView,
    ios: Seq<RetryIo>,
    i: int,
    io: RetryIo,
)
    requires
        0 <= i < attempt - 1,
        i < ios.len() == MAX_RETRIES,
    ensures
        retries(plan, attempt, s, ios.update(i, io)) == retries(plan, attempt, s, ios),
    decreases MAX_RETRIES + 1 - attempt,
{
    if attempt <= MAX_RETRIES {
        let now = retry_attempt(plan, attempt, s, ios[attempt - 1]);
        assert(ios.update(i, io)[attempt - 1] == ios[attempt - 1]);
        if let Turn::Next(next) = now.turn {
            earlier_answers_are_past(plan, attempt + 1, next, ios, i, io);
        }
    }
}

/// The error of a run that ran out of retries.
fn out_of_retries(plan: &ResumePlan, state: &ResumeState) -> (error: PortError)
    ensures
        error@ == exhausted(plan@, state@),
{
    let suffix = match plan.budget {
        Some(budget) => {
            let mut suffix = " (overall timeout: ".to_string();
            suffix.append(decimal_text(budget.as_secs()).as_str());
            suffix.append("s)");
            suffix
        },
        None => String::new(),
    };
    match &state.error {
        PortError::Timeout { .. } => {
            let mut message = "session resume exhausted ".to_string();
            message.append(decimal_text(MAX_RETRIES as u128).as_str());
            message.append(" retries");
            message.append(suffix.as_str());
            PortError::Timeout { message, session_id: clone_opt(&state.session_id) }
        },
        PortError::AgentInactivity { silent_secs, window_secs, blocked_call, .. } => {
            let mut message = "session resume exhausted ".to_string();
            message.append(decimal_text(MAX_RETRIES as u128).as_str());
            message.append(" retries after ");
            message.append(decimal_text(state.kills as u128).as_str());
            message.append(" inactivity kills");
            message.append(suffix.as_str());
            PortError::AgentInactivity {
                message,
                silent_secs: *silent_secs,
                window_secs: *window_secs,
                blocked_call: clone_opt(blocked_call),
                session_id: clone_opt(&state.session_id),
            }
        },
        _ => {
            let mut message = "agent returned empty response after ".to_string();
            message.append(decimal_text((MAX_RETRIES + 1) as u128).as_str());
            message.append(" attempts (session resume exhausted)");
            PortError::AgentNoResponse { message, session_id: clone_opt(&state.session_id) }
        },
    }
}

/// Retry from an attempt on, until the run is over.
#[verifier::spinoff_prover]
#[verifier::rlimit(30)]
fn retry_from<R: AgentRunner, L: LoomLogPort, C: Fn(&TimeSpan) -> TimeSpan>(
    trace: &mut Trace,
    agent_runner: &mut R,
    loom_log: &mut L,
    plan: &ResumePlan,
    attempt: u32,
    state: ResumeState,
    clock: &mut Outside<TimeSpan, TimeSpan, C>,
) -> (r: (Result<AgentOutput, PortError>, Option<String>, Ghost<Seq<RetryIo>>))
    requires
        old(clock).ready(),
        1 <= attempt <= MAX_RETRIES + 1,
        state.kills <= attempt,
    ensures
        r.2@.len() == MAX_RETRIES,
        ({
            let run = retries(plan@, attempt as nat, state@, r.2@);
            &&& final(agent_runner).calls() == old(agent_runner).calls() + run.calls
            &&& final(loom_log).calls() == old(loom_log).calls() + run.log
            &&& final(clock).calls() == old(clock).calls() + run.pauses
            &&& final(trace).acts() == old(trace).acts() + run.acts
            &&& ports::answered(r.0) == run.result
            &&& text::opt_text(r.1) == run.session_id
        }),
        final(clock).source() == old(clock).source(),
        final(clock).ready(),
    decreases MAX_RETRIES + 1 - attempt,
{
    let ghost calls = agent_runner.calls();
    let ghost log = loom_log.calls();
    let ghost pauses = clock.calls();
    if attempt > MAX_RETRIES {
        let error = out_of_retries(plan, &state);
        let ghost io = RetryIo {
            before: no_time(),
            waited: no_time(),
            resumed: Ok(()),
            started: no_time(),
            answer: Err(state@.error),
            ended: no_time(),
            logged: Ok(()),
            compacted: Seq::empty(),
        };
        let ghost ios = Seq::new(MAX_RETRIES as nat, |i: int| io);
        assert(log + Seq::<LoomLogCall>::empty() =~= log);
        assert(calls + Seq::<RunnerCall>::empty() =~= calls);
        assert(pauses + Seq::<(TimeSpan, TimeSpan)>::empty() =~= pauses);
        return (Err(error), state.session_id, Ghost(ios));
    }
    let ghost s = state@;
    let (turn, Ghost(io)) = make_retry(trace, agent_runner, loom_log, plan, attempt, state, clock);
    let ghost now = retry_attempt(plan@, attempt as nat, s, io);
    match turn {
        ResumeTurn::Done(result, session_id) => {
            let ghost ios = Seq::new(MAX_RETRIES as nat, |i: int| io);
            (result, session_id, Ghost(ios))
        },
        ResumeTurn::Next(next) => {
            let ghost view = next@;
            let (result, session_id, Ghost(rest)) = retry_from(
                trace,
                agent_runner,
                loom_log,
                plan,
                attempt + 1,
                next,
                clock,
            );
            let ghost ios = rest.update(attempt - 1, io);
            proof {
                earlier_answers_are_past(
                    plan@,
                    (attempt + 1) as nat,
                    view,
                    rest,
                    attempt - 1,
                    io,
                );
                let run = retries(plan@, (attempt + 1) as nat, view, ios);
                assert(ios[attempt - 1] == io);
                assert(agent_runner.calls() =~= calls + (now.calls + run.calls));
                assert(loom_log.calls() =~= log + (now.log + run.log));
                assert(clock.calls() =~= pauses + (now.pauses + run.pauses));
            }
            (result, session_id, Ghost(ios))
        },
    }
}

/// Attempt agent execution, and retry in the same session where that can
/// help.
///
/// The clock waits for the span it is handed, and says what time it is then.
/// What is asked of the agent, what is logged, how long is waited, the order
/// of all that, the result and the session are those of a whole run on what
/// the agent, the log and the clock answer.
pub fn execute_with_resume_internal<R: AgentRunner, L: LoomLogPort, C: Fn(&TimeSpan) -> TimeSpan>(
    agent_runner: &mut R,
    loom_log: &mut L,
    loom_id: &LoomId,
    knot_id: &KnotId,
    strand_path: &StrandPath,
    session_id: &mut Option<String>,
    agent_config: AgentConfig,
    prompt: String,
    strand_file_ref: Option<StrandPath>,
    profile_prompt: String,
    event_type: String,
    knot_name: Option<String>,
    profile_timeout: Option<TimeSpan>,
    retry_delay: TimeSpan,
    clock: &mut Outside<TimeSpan, TimeSpan, C>,
    trace: &mut Trace,
) -> (result: Result<AgentOutput, PortError>)
    requires
        old(clock).ready(),
    ensures
        ({
            let plan = PlanView {
                subject: Subject {
                    loom_id: loom_id@,
                    knot_id: knot_id@,
                    strand_path: strand_path@,
                },
                strand_file_ref: text::opt_view(strand_file_ref),
                profile_prompt: profile_prompt@,
                event_type: event_type@,
                knot_name: text::opt_text(knot_name),
                budget: profile_timeout,
                delay: retry_delay,
                start: no_time(),
            };
            let known = text::opt_text(*old(session_id));
            exists|start: TimeSpan, first: FirstIo, ios: Seq<RetryIo>|
                {
                    let run = #[trigger] run_from(
                        start,
                        plan,
                        agent_config@,
                        prompt@,
                        known,
                        first,
                        ios,
                    );
                    &&& ios.len() == MAX_RETRIES
                    &&& final(agent_runner).calls() == old(agent_runner).calls() + run.calls
                    &&& final(loom_log).calls() == old(loom_log).calls() + run.log
                    &&& outside::asked(*old(clock), *final(clock), run.pauses)
                    &&& final(trace).acts() == old(trace).acts() + run.acts
                    &&& ports::answered(result) == run.result
                    &&& text::opt_text(*final(session_id)) == run.session_id
                }
        }),
{
    let ghost pauses = clock.calls();
    let start = trace.pause(clock, &TimeSpan { nanos: 0 });
    let plan = ResumePlan {
        loom_id: loom_id.clone(),
        knot_id: knot_id.clone(),
        strand_path: strand_path.clone(),
        strand_file_ref,
        profile_prompt,
        event_type,
        knot_name,
        budget: profile_timeout,
        delay: retry_delay,
        start,
    };
    let ghost unset = PlanView { start: no_time(), ..plan@ };
    let ghost calls = agent_runner.calls();
    let ghost log = loom_log.calls();
    let ghost known = text::opt_text(*session_id);
    let ghost config = agent_config@;
    let ghost text = prompt@;
    let (turn, Ghost(first)) = make_first_attempt(
        trace,
        agent_runner,
        loom_log,
        &plan,
        agent_config,
        prompt,
        session_id,
    );
    let ghost now = first_attempt(plan@, config, text, known, first);
    assert(PlanView { start, ..unset } == plan@);
    assert(clock.calls() =~= pauses + now.pauses);
    match turn {
        ResumeTurn::Done(result, session) => {
            *session_id = session;
            proof {
                let io = RetryIo {
                    before: no_time(),
                    waited: no_time(),
                    resumed: Ok(()),
                    started: no_time(),
                    answer: first.answer,
                    ended: no_time(),
                    logged: Ok(()),
                    compacted: Seq::empty(),
                };
                let ios = Seq::new(MAX_RETRIES as nat, |i: int| io);
                let run = run_from(start, unset, config, text, known, first, ios);
            }
            result
        },
        ResumeTurn::Next(next) => {
            let ghost view = next@;
            let (result, session, Ghost(ios)) = retry_from(
                trace,
                agent_runner,
                loom_log,
                &plan,
                1,
                next,
                clock,
            );
            *session_id = session;
            proof {
                let run = run_from(start, unset, config, text, known, first, ios);
                let rest = retries(plan@, 1, view, ios);
                assert(agent_runner.calls() =~= calls + (now.calls + rest.calls));
                assert(loom_log.calls() =~= log + (now.log + rest.log));
                assert(clock.calls() =~= pauses + (now.pauses + rest.pauses));
            }
            result
        },
    }
}

/// Attempt agent execution with automatic session-resume retry.
///
/// `delay_millis` is the delay between attempts that is set for this process,
/// where one is set.
pub fn execute_with_resume<R: AgentRunner, L: LoomLogPort, C: Fn(&TimeSpan) -> TimeSpan>(
    agent_runner: &mut R,
    loom_log: &mut L,
    loom_id: &LoomId,
    knot_id: &KnotId,
    strand_path: &StrandPath,
    session_id: &mut Option<String>,
    agent_config: AgentConfig,
    prompt: String,
    strand_file_ref: Option<StrandPath>,
    profile_prompt: String,
    event_type: String,
    knot_name: Option<String>,
    profile_timeout: Option<TimeSpan>,
    delay_millis: Option<u64>,
    clock: &mut Outside<TimeSpan, TimeSpan, C>,
    trace: &mut Trace,
) -> (result: Result<AgentOutput, PortError>)
    requires
        old(clock).ready(),
    ensures
        ({
            let plan = PlanView {
                subject: Subject {
                    loom_id: loom_id@,
                    knot_id: knot_id@,
                    strand_path: strand_path@,
                },
                strand_file_ref: text::opt_view(strand_file_ref),
                profile_prompt: profile_prompt@,
                event_type: event_type@,
                knot_name: text::opt_text(knot_name),
                budget: profile_timeout,
                delay: delay_set(delay_millis),
                start: no_time(),
            };
            let known = text::opt_text(*old(session_id));
            exists|start: TimeSpan, first: FirstIo, ios: Seq<RetryIo>|
                {
                    let run = #[trigger] run_from(
                        start,
                        plan,
                        agent_config@,
                        prompt@,
                        known,
                        first,
                        ios,
                    );
                    &&& ios.len() == MAX_RETRIES
                    &&& final(agent_runner).calls() == old(agent_runner).calls() + run.calls
                    &&& final(loom_log).calls() == old(loom_log).calls() + run.log
                    &&& outside::asked(*old(clock), *final(clock), run.pauses)
                    &&& final(trace).acts() == old(trace).acts() + run.acts
                    &&& ports::answered(result) == run.result
                    &&& text::opt_text(*final(session_id)) == run.session_id
                }
        }),
{
    execute_with_resume_internal(
        agent_runner,
        loom_log,
        loom_id,
        knot_id,
        strand_path,
        session_id,
        agent_config,
        prompt,
        strand_file_ref,
        profile_prompt,
        event_type,
        knot_name,
        profile_timeout,
        retry_delay(delay_millis),
        clock,
        trace,
    )
}

// ── Asking for events ──────────────────────────────────────────────────

/// The prompt that asks again for events.
pub open spec fn event_prompt(listener_context: Seq<char>) -> Seq<char> {
    "Your previous response did not contain any agent event blocks.\n\nPlease emit events as instructed below:\n\n"@
        + listener_context
}

/// The request that asks again for events: in the session, without a strand
/// file and without the profile's prompt.
pub open spec fn event_request(
    config: AgentConfigView,
    session_id: Seq<char>,
    strand_path: Seq<char>,
    listener_context: Seq<char>,
    event_type: Seq<char>,
    knot_name: Option<Seq<char>>,
    timeout: Option<TimeSpan>,
) -> RunRequest {
    RunRequest {
        agent_config: in_session(config, session_id),
        strand_path,
        strand_file_ref: None,
        prompt: event_prompt(listener_context),
        profile_prompt: Seq::empty(),
        event_type,
        knot_name,
        timeout,
    }
}

/// Re-enter a session to request missing events.
///
/// Repeats the instructions that the agent was given, in the same session and
/// without the profile's prompt: the session has the conversation so far.
/// Gives the agent's response text.
pub fn inject_event_request<R: AgentRunner, L: LoomLogPort>(
    agent_runner: &mut R,
    _loom_log: &L,
    _loom_id: &LoomId,
    _knot_id: &KnotId,
    strand_path: &StrandPath,
    session_id: &Option<String>,
    agent_config: AgentConfig,
    listener_context: String,
    event_type: String,
    knot_name: Option<String>,
    profile_timeout: Option<TimeSpan>,
) -> (result: Result<String, PortError>)
    ensures
        match text::opt_text(*session_id) {
            None => {
                &&& final(agent_runner).calls() == old(agent_runner).calls()
                &&& ports::answered(result) == Err::<Seq<char>, PortErrorView>(
                    PortErrorView::AgentExecutionFailed {
                        message:
                            "cannot re-enter session for event enforcement: no session ID"@,
                        session_id: None,
                    },
                )
            },
            Some(sid) => exists|answer: Answer<AgentOutputView>|
                {
                    &&& final(agent_runner).calls() == old(agent_runner).calls().push(
                        #[trigger] event_call(
                            event_request(
                                agent_config@,
                                sid,
                                strand_path@,
                                listener_context@,
                                event_type@,
                                text::opt_text(knot_name),
                                profile_timeout,
                            ),
                            answer,
                        ),
                    )
                    &&& ports::answered(result) == (match answer {
                        Ok(output) => Ok::<Seq<char>, PortErrorView>(output.stdout),
                        Err(e) => Err(e),
                    })
                },
        },
{
    broadcast use text::texts_push;

    match session_id {
        None => Err(
            PortError::AgentExecutionFailed {
                message:
                    "cannot re-enter session for event enforcement: no session ID".to_string(),
                session_id: None,
            },
        ),
        Some(sid) => {
            let mut prompt =
                "Your previous response did not contain any agent event blocks.\n\nPlease emit events as instructed below:\n\n".to_string();
            prompt.append(listener_context.as_str());
            let mut config = agent_config;
            let ghost args = config@.extra_args;
            config.extra_args.push("--session-id".to_string());
            config.extra_args.push(sid.clone());
            assert(config@.extra_args =~= args + seq!["--session-id"@, sid@]);
            let ghost request = event_request(
                agent_config@,
                sid@,
                strand_path@,
                listener_context@,
                event_type@,
                text::opt_text(knot_name),
                profile_timeout,
            );
            let answer = agent_runner.execute_with_config(
                &config,
                strand_path.clone(),
                None,
                prompt,
                String::new(),
                event_type,
                knot_name,
                profile_timeout,
            );
            assert(agent_runner.calls() == old(agent_runner).calls().push(
                event_call(request, ports::answered(answer)),
            ));
            match answer {
                Ok(output) => Ok(output.stdout),
                Err(e) => Err(e),
            }
        },
    }
}

// ── Laws ───────────────────────────────────────────────────────────────

/// A request stays within bounds: its prompt starts with the prompt that the
/// run was started with, it asks about the same strand and event, and its
/// deadline is within the budget and the longest
/// deadline of a single attempt.
pub open spec fn within_bounds(plan: PlanView, prompt: Seq<char>, call: RunnerCall) -> bool {
    match call {
        RunnerCall::ExecuteWithConfig { request, .. } => {
            &&& prompt.is_prefix_of(request.prompt)
            &&& request.strand_path == plan.subject.strand_path
            &&& request.strand_file_ref == plan.strand_file_ref
            &&& request.profile_prompt == plan.profile_prompt
            &&& request.event_type == plan.event_type
            &&& request.knot_name == plan.knot_name
            &&& match (plan.budget, request.timeout) {
                (None, None) => true,
                (Some(budget), Some(timeout)) => {
                    &&& timeout.nanos <= budget.nanos
                    &&& timeout.nanos <= MAX_ATTEMPT_TIMEOUT_SECS * crate::time::NANOS_PER_SEC
                },
                _ => false,
            }
        },
        _ => false,
    }
}

/// How many retries a log tells of.
pub open spec fn resumptions(log: Seq<LoomLogCall>) -> nat
    decreases log.len(),
{
    if log.len() == 0 {
        0
    } else {
        resumptions(log.drop_last()) + if log.last() matches LoomLogCall::Append {
            fact: LoomFact::SessionResumed { .. },
            ..
        } {
            1nat
        } else {
            0
        }
    }
}

proof fn resumptions_add(a: Seq<LoomLogCall>, b: Seq<LoomLogCall>)
    ensures
        resumptions(a + b) == resumptions(a) + resumptions(b),
    decreases b.len(),
{
    if b.len() == 0 {
        assert(a + b =~= a);
    } else {
        assert((a + b).drop_last() =~= a + b.drop_last());
        resumptions_add(a, b.drop_last());
    }
}

proof fn compactions_are_no_resumptions(
    subject: Subject,
    session_id: Option<Seq<char>>,
    records: Seq<CompactionRecordView>,
    attempt: nat,
    answers: Seq<Answer<()>>,
)
    ensures
        resumptions(
            append_calls(compacted_facts(subject, session_id, records, attempt), answers),
        ) == 0,
    decreases records.len(),
{
    if records.len() > 0 {
        let before = compacted_facts(subject, session_id, records.drop_last(), attempt);
        let facts = compacted_facts(subject, session_id, records, attempt);
        compactions_are_no_resumptions(subject, session_id, records.drop_last(), attempt, answers);
        if records.last().succeeded() {
            assert(append_calls(facts, answers).drop_last() =~= append_calls(before, answers));
            assert(append_calls(facts, answers).last() == append_call(
                facts.last(),
                answers[facts.len() - 1],
            ));
        }
    }
}

proof fn output_is_no_resumption(
    subject: Subject,
    output: AgentOutputView,
    attempt: nat,
    answers: Seq<Answer<()>>,
)
    ensures
        resumptions(append_calls(output_facts(subject, output, attempt), answers)) == 0,
{
    match output.metadata {
        Some(m) => compactions_are_no_resumptions(
            subject,
            m.session_id,
            m.compactions,
            attempt,
            answers,
        ),
        None => {},
    }
}

#[verifier::spinoff_prover]
#[verifier::rlimit(30)]
proof fn retries_are_bounded(
    plan: PlanView,
    attempt: nat,
    s: ResumeView,
    ios: Seq<RetryIo>,
    prompt: Seq<char>,
)
    requires
        1 <= attempt <= MAX_RETRIES + 1,
        prompt == s.prompt,
    ensures
        ({
            let run = retries(plan, attempt, s, ios);
            &&& run.calls.len() <= MAX_RETRIES + 1 - attempt
            &&& forall|i: int|
                0 <= i < run.calls.len() ==> within_bounds(plan, prompt, #[trigger] run.calls[i])
            &&& run.result is Ok ==> !text::blank(run.result->Ok_0.stdout)
            &&& run.calls.len() <= resumptions(run.log) <= run.calls.len() + 1
        }),
    decreases MAX_RETRIES + 1 - attempt,
{
    if attempt <= MAX_RETRIES {
        let io = ios[attempt - 1];
        let now = retry_attempt(plan, attempt, s, io);
        let run = retries(plan, attempt, s, ios);
        let session = retry_session(s);
        let resumed = append_call(resumed_fact(plan.subject, session, attempt), io.resumed);
        let (log, turn) = answered_turn(plan, attempt, s, io);
        reveal_with_fuel(resumptions, 2);
        assert(seq![resumed].drop_last() =~= Seq::empty());
        assert(resumptions(seq![resumed]) == 1);
        assert(prompt.is_prefix_of(retry_prompt(s)));
        assert(resumptions(log) == 0) by {
            if io.answer is Ok && !text::blank(io.answer->Ok_0.stdout) {
                output_is_no_resumption(
                    plan.subject,
                    io.answer->Ok_0,
                    attempt + 1,
                    io.compacted,
                );
            } else if log.len() == 1 {
                assert(log.drop_last() =~= Seq::empty());
            }
        }
        resumptions_add(seq![resumed], log);
        assert(now.calls.len() <= resumptions(now.log) <= 1);
        assert(forall|i: int|
            0 <= i < now.calls.len() ==> within_bounds(plan, prompt, #[trigger] now.calls[i]));
        if let Turn::Next(next) = now.turn {
            retries_are_bounded(plan, attempt + 1, next, ios, prompt);
            let rest = retries(plan, attempt + 1, next, ios);
            resumptions_add(now.log, rest.log);
            assert forall|i: int| 0 <= i < run.calls.len() implies within_bounds(
                plan,
                prompt,
                #[trigger] run.calls[i],
            ) by {
                if i < now.calls.len() {
                    assert(run.calls[i] == now.calls[i]);
                } else {
                    assert(run.calls[i] == rest.calls[i - now.calls.len()]);
                }
            }
        }
    }
}

/// A run asks the agent at least once, and never more than once per retry
/// besides. Each request is within bounds. Every retry is logged before it is
/// made; the log tells of one more at most, one whose event the log refused.
/// A run that succeeds ends with a response that is not
/// blank.
pub proof fn runs_are_bounded(
    plan: PlanView,
    config: AgentConfigView,
    prompt: Seq<char>,
    session_id: Option<Seq<char>>,
    first: FirstIo,
    ios: Seq<RetryIo>,
)
    ensures
        ({
            let run = whole_run(plan, config, prompt, session_id, first, ios);
            &&& 1 <= run.calls.len() <= MAX_RETRIES + 1
            &&& forall|i: int|
                0 <= i < run.calls.len() ==> within_bounds(plan, prompt, #[trigger] run.calls[i])
            &&& run.calls.len() - 1 <= resumptions(run.log) <= run.calls.len()
            &&& run.result is Ok ==> !text::blank(run.result->Ok_0.stdout)
        }),
{
    let now = first_attempt(plan, config, prompt, session_id, first);
    let run = whole_run(plan, config, prompt, session_id, first, ios);
    assert(prompt.is_prefix_of(prompt));
    reveal_with_fuel(resumptions, 2);
    assert(resumptions(now.log) == 0) by {
        if first.answer is Ok && !text::blank(first.answer->Ok_0.stdout) {
            output_is_no_resumption(plan.subject, first.answer->Ok_0, 1, first.compacted);
        } else if now.log.len() == 1 {
            assert(now.log.drop_last() =~= Seq::empty());
        }
    }
    assert(within_bounds(plan, prompt, now.calls[0]));
    if let Turn::Next(next) = now.turn {
        let rest = retries(plan, 1, next, ios);
        retries_are_bounded(plan, 1, next, ios, prompt);
        resumptions_add(now.log, rest.log);
        assert forall|i: int| 0 <= i < run.calls.len() implies within_bounds(
            plan,
            prompt,
            #[trigger] run.calls[i],
        ) by {
            if i > 0 {
                assert(run.calls[i] == rest.calls[i - 1]);
            }
        }
    }
}

/// The retry at a place of what a run did comes once the delay was waited and
/// the log took the retry's event; a look at the clock may come between.
pub open spec fn announced(plan: PlanView, acts: Seq<Act>, i: int) -> bool {
    let told = if plan.budget is Some {
        i - 2
    } else {
        i - 1
    };
    &&& 1 <= told < acts.len()
    &&& acts[told - 1] matches Act::Pause(span, _) && span == plan.delay
    &&& acts[told] matches Act::Log(call) && call matches LoomLogCall::Append { fact, answer, .. }
        && fact is SessionResumed && answer is Ok
}

proof fn retries_are_announced_in_turn(
    plan: PlanView,
    attempt: nat,
    s: ResumeView,
    ios: Seq<RetryIo>,
)
    ensures
        ({
            let acts = retries(plan, attempt, s, ios).acts;
            forall|i: int|
                0 <= i < acts.len() && (#[trigger] acts[i]) is Agent ==> announced(plan, acts, i)
        }),
    decreases MAX_RETRIES + 1 - attempt,
{
    if attempt <= MAX_RETRIES {
        let now = retry_attempt(plan, attempt, s, ios[attempt - 1]);
        let acts = retries(plan, attempt, s, ios).acts;
        assert forall|i: int| 0 <= i < now.acts.len() && (#[trigger] now.acts[i]) is Agent implies announced(
            plan,
            now.acts,
            i,
        ) by {
            assert(i == (if plan.budget is Some {
                4int
            } else {
                2int
            }));
        }
        if let Turn::Next(next) = now.turn {
            retries_are_announced_in_turn(plan, attempt + 1, next, ios);
            let rest = retries(plan, attempt + 1, next, ios).acts;
            assert forall|i: int| 0 <= i < acts.len() && (#[trigger] acts[i]) is Agent implies announced(
                plan,
                acts,
                i,
            ) by {
                if i < now.acts.len() {
                    assert(announced(plan, now.acts, i));
                } else {
                    let k = i - now.acts.len();
                    assert(rest[k] is Agent);
                    assert(announced(plan, rest, k));
                }
            }
        }
    }
}

/// Every request behind the first comes right after its delay was waited and
/// its event was logged. The first comes right after the run began.
pub proof fn retries_are_announced(
    plan: PlanView,
    config: AgentConfigView,
    prompt: Seq<char>,
    session_id: Option<Seq<char>>,
    first: FirstIo,
    ios: Seq<RetryIo>,
)
    ensures
        ({
            let acts = whole_run(plan, config, prompt, session_id, first, ios).acts;
            &&& acts.len() >= 2
            &&& acts[0] == Act::Pause(no_time(), plan.start)
            &&& acts[1] is Agent
            &&& forall|i: int|
                2 <= i < acts.len() && (#[trigger] acts[i]) is Agent ==> announced(plan, acts, i)
        }),
{
    let now = first_attempt(plan, config, prompt, session_id, first);
    let acts = whole_run(plan, config, prompt, session_id, first, ios).acts;
    if let Turn::Next(next) = now.turn {
        retries_are_announced_in_turn(plan, 1, next, ios);
        let rest = retries(plan, 1, next, ios).acts;
        assert forall|i: int| 2 <= i < acts.len() && (#[trigger] acts[i]) is Agent implies announced(
            plan,
            acts,
            i,
        ) by {
            let k = i - now.acts.len();
            assert(rest[k] is Agent);
            assert(announced(plan, rest, k));
        }
    }
}

/// The note that an answer calls for: after an inactivity kill, what went
/// wrong; after any other failure or silence, the request for the final
/// response.
pub open spec fn note_after(answer: Answer<AgentOutputView>) -> Seq<char> {
    match answer {
        Err(PortErrorView::AgentInactivity { silent_secs, window_secs, .. }) => restart_note(
            silent_secs,
            window_secs,
        ),
        _ => FINAL_RESPONSE_REQUEST@,
    }
}

/// A configuration is the one before, with at most one further session
/// entered.
pub open spec fn enters_at_most_one(before: AgentConfigView, config: AgentConfigView) -> bool {
    config == before || exists|sid: Seq<char>| config == #[trigger] in_session(before, sid)
}

/// The retry follows the attempt before it: it is asked with the run's own
/// prompt and the one note that the answer before calls for, and its
/// configuration is the one before, with at most one further session entered.
pub open spec fn follows_up(
    prompt: Seq<char>,
    before: RunnerCall,
    call: RunnerCall,
) -> bool {
    match (before, call) {
        (
            RunnerCall::ExecuteWithConfig { request: earlier, answer },
            RunnerCall::ExecuteWithConfig { request, .. },
        ) => {
            &&& request.prompt == noted(prompt, note_after(answer))
            &&& enters_at_most_one(earlier.agent_config, request.agent_config)
        },
        _ => false,
    }
}

proof fn retries_follow_up(
    plan: PlanView,
    prompt: Seq<char>,
    attempt: nat,
    s: ResumeView,
    ios: Seq<RetryIo>,
    before: RunnerCall,
)
    requires
        s.prompt == prompt,
        before is ExecuteWithConfig,
        s.config == before->ExecuteWithConfig_request.agent_config,
        retry_note(s) == note_after(before->ExecuteWithConfig_answer),
    ensures
        ({
            let calls = seq![before] + retries(plan, attempt, s, ios).calls;
            forall|i: int|
                1 <= i < calls.len() ==> follows_up(prompt, calls[i - 1], #[trigger] calls[i])
        }),
    decreases MAX_RETRIES + 1 - attempt,
{
    if attempt <= MAX_RETRIES {
        let now = retry_attempt(plan, attempt, s, ios[attempt - 1]);
        let run = retries(plan, attempt, s, ios);
        let calls = seq![before] + run.calls;
        assert(enters_at_most_one(s.config, retry_config(s)));
        if now.calls.len() > 0 {
            assert(calls[1] == now.calls[0]);
            assert(follows_up(prompt, before, calls[1]));
        }
        if let Turn::Next(next) = now.turn {
            let rest = retries(plan, attempt + 1, next, ios);
            let last = now.calls[0];
            retries_follow_up(plan, prompt, attempt + 1, next, ios, last);
            let later = seq![last] + rest.calls;
            assert forall|i: int| 1 <= i < calls.len() implies follows_up(
                prompt,
                calls[i - 1],
                #[trigger] calls[i],
            ) by {
                if i > 1 {
                    assert(calls[i] == later[i - 1]);
                    assert(calls[i - 1] == later[i - 2]);
                }
            }
        }
    }
}

/// Every retry starts from the run's own prompt: its prompt is the run's
/// prompt, two line breaks and the one note that the answer before it calls
/// for. Its arguments are those of the attempt before, with at most one further
/// session behind them. The first attempt has the run's prompt and
/// configuration as they are.
pub proof fn retries_start_from_the_run(
    plan: PlanView,
    config: AgentConfigView,
    prompt: Seq<char>,
    session_id: Option<Seq<char>>,
    first: FirstIo,
    ios: Seq<RetryIo>,
)
    ensures
        ({
            let calls = whole_run(plan, config, prompt, session_id, first, ios).calls;
            &&& calls.len() > 0
            &&& calls[0] matches RunnerCall::ExecuteWithConfig { request, .. } && request.prompt
                == prompt && request.agent_config == config
            &&& forall|i: int|
                1 <= i < calls.len() ==> follows_up(
                    prompt,
                    calls[i - 1],
                    #[trigger] calls[i],
                )
        }),
{
    let now = first_attempt(plan, config, prompt, session_id, first);
    let run = whole_run(plan, config, prompt, session_id, first, ios);
    if let Turn::Next(next) = now.turn {
        let rest = retries(plan, 1, next, ios);
        retries_follow_up(plan, prompt, 1, next, ios, now.calls[0]);
        assert(now.calls =~= seq![now.calls[0]]);
    }
}

/// An error that no other attempt can mend is returned at once: one request,
/// no retry.
pub proof fn final_errors_are_returned(
    plan: PlanView,
    config: AgentConfigView,
    prompt: Seq<char>,
    session_id: Option<Seq<char>>,
    first: FirstIo,
    ios: Seq<RetryIo>,
)
    requires
        first.answer is Err,
        !first.answer->Err_0.resumable(),
    ensures
        ({
            let run = whole_run(plan, config, prompt, session_id, first, ios);
            &&& run.calls.len() == 1
            &&& run.log.len() == 0
            &&& run.result == first.answer
        }),
{
}

/// Once a session is known, every later request of the run is made in that
/// session or in one that a later error names: a session is never lost.
pub proof fn known_sessions_stay_known(
    plan: PlanView,
    attempt: nat,
    s: ResumeView,
    ios: Seq<RetryIo>,
)
    requires
        s.session_id is Some,
    ensures
        ({
            let run = retries(plan, attempt, s, ios);
            &&& run.session_id is Some
            &&& forall|i: int|
                0 <= i < run.calls.len() ==> enters_session(#[trigger] run.calls[i])
        }),
    decreases MAX_RETRIES + 1 - attempt,
{
    if attempt <= MAX_RETRIES {
        let now = retry_attempt(plan, attempt, s, ios[attempt - 1]);
        let run = retries(plan, attempt, s, ios);
        let args = retry_config(s).extra_args;
        assert(args[args.len() - 2] == "--session-id"@);
        assert(forall|i: int| 0 <= i < now.calls.len() ==> enters_session(#[trigger] now.calls[i]));
        if let Turn::Next(next) = now.turn {
            known_sessions_stay_known(plan, attempt + 1, next, ios);
            let rest = retries(plan, attempt + 1, next, ios);
            assert forall|i: int| 0 <= i < run.calls.len() implies enters_session(
                #[trigger] run.calls[i],
            ) by {
                if i < now.calls.len() {
                    assert(run.calls[i] == now.calls[i]);
                } else {
                    assert(run.calls[i] == rest.calls[i - now.calls.len()]);
                }
            }
        }
    }
}

proof fn silent_retries_exhaust(plan: PlanView, attempt: nat, s: ResumeView, ios: Seq<RetryIo>)
    requires
        plan.budget is None,
        1 <= attempt <= MAX_RETRIES + 1,
        ios.len() == MAX_RETRIES,
        forall|i: int|
            0 <= i < MAX_RETRIES ==> (#[trigger] ios[i]).resumed is Ok && ios[i].answer is Ok
                && text::blank(ios[i].answer->Ok_0.stdout),
        s.error is AgentNoResponse,
    ensures
        ({
            let run = retries(plan, attempt, s, ios);
            &&& run.calls.len() == MAX_RETRIES + 1 - attempt
            &&& run.result is Err
            &&& run.result->Err_0 is AgentNoResponse
        }),
    decreases MAX_RETRIES + 1 - attempt,
{
    if attempt <= MAX_RETRIES {
        let now = retry_attempt(plan, attempt, s, ios[attempt - 1]);
        if let Turn::Next(next) = now.turn {
            silent_retries_exhaust(plan, attempt + 1, next, ios);
        }
    }
}

/// An agent that stays silent in a known session, without a budget and with a
/// log that takes every event, is asked once and once per retry, and then the
/// run fails for want of a response: no deadline was exceeded.
pub proof fn silence_is_no_timeout(
    plan: PlanView,
    config: AgentConfigView,
    prompt: Seq<char>,
    session_id: Option<Seq<char>>,
    first: FirstIo,
    ios: Seq<RetryIo>,
)
    requires
        plan.budget is None,
        first.answer is Ok,
        text::blank(first.answer->Ok_0.stdout),
        first.answer->Ok_0.session_id() is Some,
        first.logged is Ok,
        ios.len() == MAX_RETRIES,
        forall|i: int|
            0 <= i < MAX_RETRIES ==> (#[trigger] ios[i]).resumed is Ok && ios[i].answer is Ok
                && text::blank(ios[i].answer->Ok_0.stdout),
    ensures
        ({
            let run = whole_run(plan, config, prompt, session_id, first, ios);
            &&& run.calls.len() == MAX_RETRIES + 1
            &&& run.result is Err
            &&& run.result->Err_0 is AgentNoResponse
        }),
{
    let now = first_attempt(plan, config, prompt, session_id, first);
    if let Turn::Next(next) = now.turn {
        silent_retries_exhaust(plan, 1, next, ios);
    }
}

/// At a time, the plan's budget leaves at least so many nanoseconds. A plan
/// without a budget always does.
pub open spec fn leaves(plan: PlanView, now: TimeSpan, nanos: int) -> bool {
    plan.budget is Some ==> {
        let used: int = if now.nanos >= plan.start.nanos {
            now.nanos - plan.start.nanos
        } else {
            0
        };
        plan.budget->0.nanos - used >= nanos
    }
}

/// A failed first attempt is followed up where another attempt can mend it.
/// When the first answer is a failed execution, a timeout, a missing response,
/// a water-mark stop or an interrupted compaction that names a session, the
/// budget leaves five seconds before the delay and some time behind it, and
/// the log takes the event, then the agent is asked again, in that session.
#[verifier::spinoff_prover]
#[verifier::rlimit(30)]
pub proof fn failures_in_a_session_are_followed_up(
    plan: PlanView,
    config: AgentConfigView,
    prompt: Seq<char>,
    session_id: Option<Seq<char>>,
    first: FirstIo,
    ios: Seq<RetryIo>,
    sid: Seq<char>,
)
    requires
        match first.answer {
            Err(PortErrorView::AgentExecutionFailed { session_id, .. }) => session_id == Some(sid),
            Err(PortErrorView::Timeout { session_id, .. }) => session_id == Some(sid),
            Err(PortErrorView::AgentNoResponse { session_id, .. }) => session_id == Some(sid),
            Err(PortErrorView::WaterMarkStop { session_id, .. }) => session_id == Some(sid),
            Err(PortErrorView::CompactionInterrupted { session_id, .. }) => session_id == Some(
                sid,
            ),
            _ => false,
        },
        leaves(plan, ios[0].before, 5_000_000_000),
        leaves(plan, ios[0].waited, 1),
        ios[0].resumed is Ok,
    ensures
        ({
            let run = whole_run(plan, config, prompt, session_id, first, ios);
            &&& run.calls.len() >= 2
            &&& run.calls[0] is ExecuteWithConfig
            &&& run.calls[0]->ExecuteWithConfig_answer == first.answer
            &&& run.calls[1] is ExecuteWithConfig
            &&& run.calls[1]->ExecuteWithConfig_request.agent_config.extra_args
                == config.extra_args + seq!["--session-id"@, sid]
            &&& run.calls[1]->ExecuteWithConfig_request.prompt == prompt + "\n\n"@
                + "Please produce your final response, or continue if you have not finished."@
            &&& run.calls[1]->ExecuteWithConfig_answer == ios[0].answer
            &&& run.log.len() >= 1
            &&& run.log[0] == (LoomLogCall::Append {
                fact: LoomFact::SessionResumed {
                    loom_id: plan.subject.loom_id,
                    knot_id: plan.subject.knot_id,
                    strand_path: plan.subject.strand_path,
                    session_id: sid,
                    attempt: 1,
                },
                stamped: true,
                answer: ios[0].resumed,
            })
            &&& run.pauses.len() >= 2
            &&& run.pauses.contains((plan.delay, ios[0].waited))
        }),
{
    let run = whole_run(plan, config, prompt, session_id, first, ios);
    let now = first_attempt(plan, config, prompt, session_id, first);
    let next = now.turn->Next_0;
    let retry = retry_attempt(plan, 1, next, ios[0]);
    let rest = retries(plan, 1, next, ios);
    assert(run.calls[1] == rest.calls[0]);
    assert(rest.calls[0] == retry.calls[0]);
    assert(rest.log[0] == retry.log[0]);
    let at: int = if plan.budget is Some {
        2
    } else {
        1
    };
    assert(retry.pauses[at - 1] == (plan.delay, ios[0].waited));
    assert(rest.pauses[at - 1] == retry.pauses[at - 1]);
    assert(run.pauses[at] == (plan.delay, ios[0].waited));
}

/// A first attempt without a response is told, and followed up in the session
/// that its output names. Without a session it cannot be, and the run fails
/// for want of a response; a log that refuses the event ends the run.
#[verifier::spinoff_prover]
#[verifier::rlimit(30)]
pub proof fn silence_in_a_session_is_followed_up(
    plan: PlanView,
    config: AgentConfigView,
    prompt: Seq<char>,
    session_id: Option<Seq<char>>,
    first: FirstIo,
    ios: Seq<RetryIo>,
)
    requires
        first.answer is Ok,
        text::blank(first.answer->Ok_0.stdout),
    ensures
        ({
            let run = whole_run(plan, config, prompt, session_id, first, ios);
            let metadata = first.answer->Ok_0.metadata;
            let named = if metadata is Some {
                metadata->0.session_id
            } else {
                None
            };
            &&& run.log.len() >= 1
            &&& run.log[0] == (LoomLogCall::Append {
                fact: LoomFact::KnotEmptyResponse {
                    loom_id: plan.subject.loom_id,
                    knot_id: plan.subject.knot_id,
                    strand_path: plan.subject.strand_path,
                    attempt: 1,
                },
                stamped: true,
                answer: first.logged,
            })
            &&& first.logged is Err ==> run.calls.len() == 1 && run.log.len() == 1 && run.result
                == Err::<AgentOutputView, PortErrorView>(first.logged->Err_0) && run.session_id
                == session_id
            &&& first.logged is Ok && named is None ==> {
                &&& run.calls.len() == 1
                &&& run.log.len() == 1
                &&& run.result == Err::<AgentOutputView, PortErrorView>(
                    PortErrorView::AgentNoResponse {
                        message:
                            "agent returned empty response (no session id — cannot request final response)"@,
                        session_id: None,
                    },
                )
                &&& run.session_id == session_id
            }
            &&& first.logged is Ok && named is Some && ios[0].resumed is Ok && leaves(
                plan,
                ios[0].before,
                5_000_000_000,
            ) && leaves(plan, ios[0].waited, 1) ==> {
                &&& run.calls.len() >= 2
                &&& run.calls[1] is ExecuteWithConfig
                &&& run.calls[1]->ExecuteWithConfig_request.agent_config.extra_args
                    == config.extra_args + seq!["--session-id"@, named->0]
                &&& run.calls[1]->ExecuteWithConfig_request.prompt == prompt + "\n\n"@
                    + "Please produce your final response, or continue if you have not finished."@
                &&& run.log.len() >= 2
                &&& run.log[1] == (LoomLogCall::Append {
                    fact: LoomFact::SessionResumed {
                        loom_id: plan.subject.loom_id,
                        knot_id: plan.subject.knot_id,
                        strand_path: plan.subject.strand_path,
                        session_id: named->0,
                        attempt: 1,
                    },
                    stamped: true,
                    answer: ios[0].resumed,
                })
            }
        }),
{
    let run = whole_run(plan, config, prompt, session_id, first, ios);
    let now = first_attempt(plan, config, prompt, session_id, first);
    if let Turn::Next(next) = now.turn {
        let retry = retry_attempt(plan, 1, next, ios[0]);
        let rest = retries(plan, 1, next, ios);
        assert(run.log[0] == now.log[0]);
        if retry.calls.len() > 0 {
            assert(run.calls[1] == rest.calls[0]);
            assert(rest.calls[0] == retry.calls[0]);
            assert(run.log[1] == rest.log[0]);
            assert(rest.log[0] == retry.log[0]);
        }
    }
}

/// A first attempt that was stopped for inactivity is told, and followed up
/// with or without a session: the next prompt tells what went wrong in place of
/// asking for the final response.
#[verifier::spinoff_prover]
#[verifier::rlimit(30)]
pub proof fn inactivity_is_followed_up(
    plan: PlanView,
    config: AgentConfigView,
    prompt: Seq<char>,
    session_id: Option<Seq<char>>,
    first: FirstIo,
    ios: Seq<RetryIo>,
    message: Seq<char>,
    silent_secs: u64,
    window_secs: u64,
    blocked_call: Option<Seq<char>>,
    named: Option<Seq<char>>,
)
    requires
        first.answer == Err::<AgentOutputView, PortErrorView>(
            PortErrorView::AgentInactivity {
                message,
                silent_secs,
                window_secs,
                blocked_call,
                session_id: named,
            },
        ),
    ensures
        ({
            let run = whole_run(plan, config, prompt, session_id, first, ios);
            let sid = if named is Some {
                named->0
            } else {
                Seq::empty()
            };
            &&& run.log.len() >= 1
            &&& run.log[0] == (LoomLogCall::Append {
                fact: LoomFact::AgentInactivity {
                    loom_id: plan.subject.loom_id,
                    knot_id: plan.subject.knot_id,
                    strand_path: plan.subject.strand_path,
                    session_id: sid,
                    silent_secs,
                    window_secs,
                    blocked_call,
                    attempt: 1,
                },
                stamped: true,
                answer: first.logged,
            })
            &&& first.logged is Err ==> run.calls.len() == 1 && run.log.len() == 1 && run.result
                == Err::<AgentOutputView, PortErrorView>(first.logged->Err_0) && run.session_id
                == named
            &&& first.logged is Ok && ios[0].resumed is Ok && leaves(
                plan,
                ios[0].before,
                5_000_000_000,
            ) && leaves(plan, ios[0].waited, 1) ==> {
                &&& run.calls.len() >= 2
                &&& run.calls[1] is ExecuteWithConfig
                &&& run.calls[1]->ExecuteWithConfig_request.agent_config.extra_args
                    == config.extra_args + (if named is Some {
                    seq!["--session-id"@, sid]
                } else {
                    Seq::empty()
                })
                &&& run.calls[1]->ExecuteWithConfig_request.prompt == prompt + "\n\n"@
                    + restart_note(silent_secs, window_secs)
                &&& run.log.len() >= 2
                &&& run.log[1] == (LoomLogCall::Append {
                    fact: LoomFact::SessionResumed {
                        loom_id: plan.subject.loom_id,
                        knot_id: plan.subject.knot_id,
                        strand_path: plan.subject.strand_path,
                        session_id: sid,
                        attempt: 1,
                    },
                    stamped: true,
                    answer: ios[0].resumed,
                })
            }
        }),
{
    let run = whole_run(plan, config, prompt, session_id, first, ios);
    let now = first_attempt(plan, config, prompt, session_id, first);
    if let Turn::Next(next) = now.turn {
        let retry = retry_attempt(plan, 1, next, ios[0]);
        let rest = retries(plan, 1, next, ios);
        assert(run.log[0] == now.log[0]);
        if retry.calls.len() > 0 {
            assert(run.calls[1] == rest.calls[0]);
            assert(rest.calls[0] == retry.calls[0]);
            assert(run.log[1] == rest.log[0]);
            assert(rest.log[0] == retry.log[0]);
            let args = run.calls[1]->ExecuteWithConfig_request.agent_config.extra_args;
            if named is None {
                assert(args =~= config.extra_args + Seq::<Seq<char>>::empty());
            }
        }
    }
}

/// A response ends a run at once, and is its result. So does a failure that
/// names no session, unless it is an inactivity kill; and one that no other
/// attempt can mend: a command that is missing, a context that does not fit, a
/// compaction that failed or was interrupted out of any session, and whatever
/// is no failure of an agent.
pub proof fn settled_first_answers_end_the_run(
    plan: PlanView,
    config: AgentConfigView,
    prompt: Seq<char>,
    session_id: Option<Seq<char>>,
    first: FirstIo,
    ios: Seq<RetryIo>,
)
    requires
        match first.answer {
            Ok(output) => !text::blank(output.stdout),
            Err(PortErrorView::AgentExecutionFailed { session_id, .. }) => session_id is None,
            Err(PortErrorView::Timeout { session_id, .. }) => session_id is None,
            Err(PortErrorView::AgentNoResponse { session_id, .. }) => session_id is None,
            Err(PortErrorView::WaterMarkStop { session_id, .. }) => session_id is None,
            Err(PortErrorView::CompactionInterrupted { session_id, .. }) => session_id is None,
            Err(PortErrorView::AgentInactivity { .. }) => false,
            Err(_) => true,
        },
    ensures
        ({
            let run = whole_run(plan, config, prompt, session_id, first, ios);
            &&& run.calls.len() == 1
            &&& run.result == first.answer
            &&& run.pauses.len() == 1
            &&& first.answer is Err ==> run.log.len() == 0
            &&& match first.answer {
                Ok(output) => run.session_id == (if output.metadata is Some
                    && output.metadata->0.session_id is Some {
                    output.metadata->0.session_id
                } else {
                    session_id
                }),
                Err(PortErrorView::ContextLimitReached { session_id: named, .. }) => run.session_id
                    == (if named is Some {
                    named
                } else {
                    session_id
                }),
                Err(PortErrorView::ManualCompactionFailed { session_id: named, .. }) => run.session_id
                    == (if named is Some {
                    named
                } else {
                    session_id
                }),
                Err(_) => run.session_id == session_id,
            }
        }),
{
}

/// The first request is made without delay, with the run's prompt and
/// configuration as they are, and with a deadline of thirty seconds, or the
/// whole budget where that is less; without a budget it has none.
pub proof fn first_requests_are_made_as_planned(
    plan: PlanView,
    config: AgentConfigView,
    prompt: Seq<char>,
    session_id: Option<Seq<char>>,
    first: FirstIo,
    ios: Seq<RetryIo>,
)
    ensures
        ({
            let run = whole_run(plan, config, prompt, session_id, first, ios);
            &&& run.calls.len() >= 1
            &&& run.calls[0] is ExecuteWithConfig
            &&& run.calls[0]->ExecuteWithConfig_answer == first.answer
            &&& run.calls[0]->ExecuteWithConfig_request == (RunRequest {
                agent_config: config,
                strand_path: plan.subject.strand_path,
                strand_file_ref: plan.strand_file_ref,
                prompt,
                profile_prompt: plan.profile_prompt,
                event_type: plan.event_type,
                knot_name: plan.knot_name,
                timeout: if plan.budget is None {
                    None
                } else if plan.budget->0.nanos < 30_000_000_000 {
                    plan.budget
                } else {
                    Some(TimeSpan { nanos: 30_000_000_000 })
                },
            })
            &&& run.pauses.len() >= 1
            &&& run.pauses[0] == (TimeSpan { nanos: 0 }, plan.start)
        }),
{
}

/// A retry is made in time: behind its delay, once the log took its event,
/// with five seconds of the budget left before the delay and some of it left
/// behind. Its deadline is what is left of the budget when it starts, thirty
/// seconds at most; without a budget it has none.
pub open spec fn asked_in_time(plan: PlanView, call: RunnerCall, io: RetryIo) -> bool {
    &&& call is ExecuteWithConfig
    &&& call->ExecuteWithConfig_answer == io.answer
    &&& io.resumed is Ok
    &&& leaves(plan, io.before, 5_000_000_000)
    &&& leaves(plan, io.waited, 1)
    &&& match call->ExecuteWithConfig_request.timeout {
        None => plan.budget is None,
        Some(timeout) => {
            &&& plan.budget is Some
            &&& timeout.nanos <= 30_000_000_000
            &&& leaves(plan, io.started, timeout.nanos as int) || timeout.nanos == 0
            &&& timeout.nanos < 30_000_000_000 ==> !leaves(plan, io.started, timeout.nanos + 1)
        },
    }
}

proof fn retries_are_made_in_time_from(
    plan: PlanView,
    attempt: nat,
    s: ResumeView,
    ios: Seq<RetryIo>,
)
    requires
        1 <= attempt,
    ensures
        ({
            let run = retries(plan, attempt, s, ios);
            forall|i: int|
                0 <= i < run.calls.len() ==> asked_in_time(
                    plan,
                    #[trigger] run.calls[i],
                    ios[attempt - 1 + i],
                )
        }),
    decreases MAX_RETRIES + 1 - attempt,
{
    if attempt <= MAX_RETRIES {
        let now = retry_attempt(plan, attempt, s, ios[attempt - 1]);
        let run = retries(plan, attempt, s, ios);
        assert(now.calls.len() > 0 ==> asked_in_time(plan, now.calls[0], ios[attempt - 1]));
        if let Turn::Next(next) = now.turn {
            retries_are_made_in_time_from(plan, attempt + 1, next, ios);
            let rest = retries(plan, attempt + 1, next, ios);
            assert forall|i: int| 0 <= i < run.calls.len() implies asked_in_time(
                plan,
                #[trigger] run.calls[i],
                ios[attempt - 1 + i],
            ) by {
                if i > 0 {
                    assert(run.calls[i] == rest.calls[i - 1]);
                }
            }
        }
    }
}

/// Every retry is made in time, and the answer to it is what its attempt was
/// answered.
pub proof fn retries_are_made_in_time(
    plan: PlanView,
    config: AgentConfigView,
    prompt: Seq<char>,
    session_id: Option<Seq<char>>,
    first: FirstIo,
    ios: Seq<RetryIo>,
    i: int,
)
    ensures
        ({
            let run = whole_run(plan, config, prompt, session_id, first, ios);
            1 <= i < run.calls.len() ==> asked_in_time(plan, run.calls[i], ios[i - 1])
        }),
{
    let now = first_attempt(plan, config, prompt, session_id, first);
    let run = whole_run(plan, config, prompt, session_id, first, ios);
    if let Turn::Next(next) = now.turn {
        retries_are_made_in_time_from(plan, 1, next, ios);
        let rest = retries(plan, 1, next, ios);
        if 1 <= i < run.calls.len() {
            assert(run.calls[i] == rest.calls[i - 1]);
        }
    }
}

/// The session that is known once a call was answered, given the arguments of
/// the call before it: the one that an error names, or else the one that the
/// call itself has entered.
pub open spec fn known_after(before: Seq<Seq<char>>, call: RunnerCall) -> Option<Seq<char>> {
    let args = call->ExecuteWithConfig_request.agent_config.extra_args;
    match call->ExecuteWithConfig_answer {
        Err(e) if e.session_id() is Some => e.session_id(),
        _ => if args.len() == before.len() {
            None
        } else {
            Some(args.last())
        },
    }
}

/// A call enters a session behind the arguments of the call before it, where
/// one is known, and otherwise has the same arguments; the rest of its
/// configuration stays.
pub open spec fn enters(session_id: Option<Seq<char>>, before: RunnerCall, call: RunnerCall) -> bool {
    let earlier = before->ExecuteWithConfig_request.agent_config;
    let config = call->ExecuteWithConfig_request.agent_config;
    &&& config.extra_args == (match session_id {
        Some(sid) => earlier.extra_args + seq!["--session-id"@, sid],
        None => earlier.extra_args,
    })
    &&& config.goal == earlier.goal
    &&& config.provider == earlier.provider
    &&& config.model == earlier.model
    &&& config.tools == earlier.tools
    &&& config.thinking_level == earlier.thinking_level
    &&& config.ctx_wrap_up_limit == earlier.ctx_wrap_up_limit
}

#[verifier::spinoff_prover]
#[verifier::rlimit(40)]
proof fn retries_keep_their_session(
    plan: PlanView,
    attempt: nat,
    s: ResumeView,
    ios: Seq<RetryIo>,
    before: RunnerCall,
    known: Option<Seq<char>>,
)
    requires
        s.config == before->ExecuteWithConfig_request.agent_config,
        retry_session(s) == known,
    ensures
        ({
            let calls = seq![before] + retries(plan, attempt, s, ios).calls;
            &&& calls.len() > 1 ==> enters(known, before, calls[1])
            &&& forall|i: int|
                2 <= i < calls.len() ==> enters(
                    known_after(
                        calls[i - 2]->ExecuteWithConfig_request.agent_config.extra_args,
                        calls[i - 1],
                    ),
                    calls[i - 1],
                    #[trigger] calls[i],
                )
        }),
    decreases MAX_RETRIES + 1 - attempt,
{
    if attempt <= MAX_RETRIES {
        let now = retry_attempt(plan, attempt, s, ios[attempt - 1]);
        let run = retries(plan, attempt, s, ios);
        let calls = seq![before] + run.calls;
        if now.calls.len() > 0 {
            assert(calls[1] == now.calls[0]);
            assert(enters(known, before, calls[1]));
        }
        if let Turn::Next(next) = now.turn {
            let rest = retries(plan, attempt + 1, next, ios);
            let last = now.calls[0];
            let later = seq![last] + rest.calls;
            let after = known_after(
                before->ExecuteWithConfig_request.agent_config.extra_args,
                last,
            );
            assert(retry_session(next) == after);
            retries_keep_their_session(plan, attempt + 1, next, ios, last, after);
            assert forall|i: int| 2 <= i < calls.len() implies enters(
                known_after(
                    calls[i - 2]->ExecuteWithConfig_request.agent_config.extra_args,
                    calls[i - 1],
                ),
                calls[i - 1],
                #[trigger] calls[i],
            ) by {
                assert(calls[i] == later[i - 1]);
                assert(calls[i - 1] == later[i - 2]);
                if i > 2 {
                    assert(calls[i - 2] == later[i - 3]);
                } else {
                    assert(calls[0] == before);
                }
            }
        }
    }
}

/// Every retry is made in the session that is known by then. The second
/// request enters the one that the first answer names. Each later one enters
/// the one that the error before it names, or else the same as the request
/// before it. Where none is known the arguments stay.
pub proof fn retries_enter_the_known_session(
    plan: PlanView,
    config: AgentConfigView,
    prompt: Seq<char>,
    session_id: Option<Seq<char>>,
    first: FirstIo,
    ios: Seq<RetryIo>,
    i: int,
)
    ensures
        ({
            let calls = whole_run(plan, config, prompt, session_id, first, ios).calls;
            let named = match first.answer {
                Ok(output) => output.session_id(),
                Err(e) => e.session_id(),
            };
            &&& calls.len() > 1 ==> enters(named, calls[0], calls[1])
            &&& 2 <= i < calls.len() ==> enters(
                known_after(
                    calls[i - 2]->ExecuteWithConfig_request.agent_config.extra_args,
                    calls[i - 1],
                ),
                calls[i - 1],
                calls[i],
            )
        }),
{
    let now = first_attempt(plan, config, prompt, session_id, first);
    let run = whole_run(plan, config, prompt, session_id, first, ios);
    if let Turn::Next(next) = now.turn {
        let named = match first.answer {
            Ok(output) => output.session_id(),
            Err(e) => e.session_id(),
        };
        retries_keep_their_session(plan, 1, next, ios, now.calls[0], named);
        assert(now.calls =~= seq![now.calls[0]]);
    }
}

/// How many of the calls were stopped for inactivity.
pub open spec fn inactivity_kills(calls: Seq<RunnerCall>) -> nat
    decreases calls.len(),
{
    if calls.len() == 0 {
        0
    } else {
        inactivity_kills(calls.drop_last()) + if calls.last()->ExecuteWithConfig_answer is Err
            && calls.last()->ExecuteWithConfig_answer->Err_0 is AgentInactivity {
            1nat
        } else {
            0
        }
    }
}

proof fn inactivity_kills_add(a: Seq<RunnerCall>, b: Seq<RunnerCall>)
    ensures
        inactivity_kills(a + b) == inactivity_kills(a) + inactivity_kills(b),
    decreases b.len(),
{
    if b.len() == 0 {
        assert(a + b =~= a);
    } else {
        assert((a + b).drop_last() =~= a + b.drop_last());
        inactivity_kills_add(a, b.drop_last());
    }
}

/// A failure is the timeout of a budget that ran out at a time: it counts the
/// attempts, tells the seconds used and those of the budget, and names the
/// session.
pub open spec fn ran_out(
    plan: PlanView,
    attempts: int,
    now: TimeSpan,
    session_id: Option<Seq<char>>,
    result: Answer<AgentOutputView>,
) -> bool {
    let used: int = if now.nanos >= plan.start.nanos {
        now.nanos - plan.start.nanos
    } else {
        0
    };
    &&& plan.budget is Some
    &&& result == Err::<AgentOutputView, PortErrorView>(
        PortErrorView::Timeout {
            message: "overall timeout budget exhausted after "@ + text::decimal(attempts as nat)
                + " attempt(s) ("@ + text::decimal((used / 1_000_000_000) as nat) + "s used of "@
                + text::decimal((plan.budget->0.nanos as int / 1_000_000_000) as nat)
                + "s budget)"@,
            session_id,
        },
    )
}

/// A failure is that of a run without retries left. It tells the last cause: a
/// timeout, an inactivity kill with the number of all of them, or else the want
/// of a response.
pub open spec fn gave_up(
    plan: PlanView,
    answer: Answer<AgentOutputView>,
    kills: nat,
    session_id: Option<Seq<char>>,
    result: Answer<AgentOutputView>,
) -> bool {
    let overall = if plan.budget is Some {
        " (overall timeout: "@ + text::decimal(
            (plan.budget->0.nanos as int / 1_000_000_000) as nat,
        ) + "s)"@
    } else {
        Seq::empty()
    };
    result == Err::<AgentOutputView, PortErrorView>(
        match answer {
            Err(PortErrorView::Timeout { .. }) => PortErrorView::Timeout {
                message: "session resume exhausted "@ + text::decimal(10) + " retries"@ + overall,
                session_id,
            },
            Err(
                PortErrorView::AgentInactivity { silent_secs, window_secs, blocked_call, .. },
            ) => PortErrorView::AgentInactivity {
                message: "session resume exhausted "@ + text::decimal(10) + " retries after "@
                    + text::decimal(kills) + " inactivity kills"@ + overall,
                silent_secs,
                window_secs,
                blocked_call,
                session_id,
            },
            _ => PortErrorView::AgentNoResponse {
                message: "agent returned empty response after "@ + text::decimal(11)
                    + " attempts (session resume exhausted)"@,
                session_id,
            },
        },
    )
}

/// Why a run asked no more after so many attempts, the last of which another
/// could have mended: it had made ten retries, or too little of the budget was
/// left, or the log refused the event of the next retry.
pub open spec fn stopped(
    plan: PlanView,
    attempts: int,
    answer: Answer<AgentOutputView>,
    kills: nat,
    session_id: Option<Seq<char>>,
    ios: Seq<RetryIo>,
    result: Answer<AgentOutputView>,
) -> bool {
    if attempts > 10 {
        gave_up(plan, answer, kills, session_id, result)
    } else {
        let io = ios[attempts - 1];
        if !leaves(plan, io.before, 5_000_000_000) {
            ran_out(plan, attempts, io.before, session_id, result)
        } else if !leaves(plan, io.waited, 1) {
            ran_out(plan, attempts, io.waited, session_id, result)
        } else {
            io.resumed is Err && result == Err::<AgentOutputView, PortErrorView>(
                io.resumed->Err_0,
            )
        }
    }
}

/// Why a run ended with its last retry: the answer settled it, or it left too
/// little of the budget, or no other attempt could be made.
pub open spec fn ended_with(
    plan: PlanView,
    attempts: int,
    answer: Answer<AgentOutputView>,
    kills: nat,
    session_id: Option<Seq<char>>,
    ios: Seq<RetryIo>,
    result: Answer<AgentOutputView>,
) -> bool {
    match answer {
        Ok(output) => if text::blank(output.stdout) {
            stopped(plan, attempts, answer, kills, session_id, ios, result)
        } else {
            result == answer
        },
        Err(e) => if !e.resumable() {
            result == answer
        } else if !leaves(plan, ios[attempts - 2].ended, 5_000_000_000) {
            ran_out(plan, attempts - 1, ios[attempts - 2].ended, session_id, result)
        } else {
            stopped(plan, attempts, answer, kills, session_id, ios, result)
        },
    }
}

#[verifier::spinoff_prover]
#[verifier::rlimit(40)]
proof fn retries_end_for_a_reason(
    plan: PlanView,
    attempt: nat,
    s: ResumeView,
    ios: Seq<RetryIo>,
    answer: Answer<AgentOutputView>,
)
    requires
        1 <= attempt <= MAX_RETRIES + 1,
        match answer {
            Ok(_) => s.error is AgentNoResponse,
            Err(e) => s.error == e,
        },
        s.error.session_id() is Some ==> s.session_id == s.error.session_id(),
    ensures
        ({
            let run = retries(plan, attempt, s, ios);
            let n = run.calls.len();
            let kills = s.kills + inactivity_kills(run.calls);
            if n == 0 {
                stopped(plan, attempt as int, answer, kills, run.session_id, ios, run.result)
            } else {
                ended_with(
                    plan,
                    (attempt + n) as int,
                    run.calls[n - 1]->ExecuteWithConfig_answer,
                    kills,
                    run.session_id,
                    ios,
                    run.result,
                )
            }
        }),
    decreases MAX_RETRIES + 1 - attempt,
{
    let run = retries(plan, attempt, s, ios);
    if attempt <= MAX_RETRIES {
        let now = retry_attempt(plan, attempt, s, ios[attempt - 1]);
        reveal_with_fuel(inactivity_kills, 2);
        if now.calls.len() > 0 {
            assert(now.calls.drop_last() =~= Seq::empty());
        }
        if let Turn::Next(next) = now.turn {
            let rest = retries(plan, attempt + 1, next, ios);
            retries_end_for_a_reason(plan, attempt + 1, next, ios, ios[attempt - 1].answer);
            inactivity_kills_add(now.calls, rest.calls);
            if rest.calls.len() > 0 {
                assert(run.calls[run.calls.len() - 1] == rest.calls[rest.calls.len() - 1]);
            }
        }
    }
}

/// A run ends for a reason that its result tells. It gives a response exactly
/// when its last answer is one. A last failure that cannot be mended is
/// returned. One that can be is left alone only when ten retries were made,
/// when too little of the budget is left, or when the log refuses an event.
#[verifier::spinoff_prover]
#[verifier::rlimit(40)]
pub proof fn runs_end_for_a_reason(
    plan: PlanView,
    config: AgentConfigView,
    prompt: Seq<char>,
    session_id: Option<Seq<char>>,
    first: FirstIo,
    ios: Seq<RetryIo>,
)
    ensures
        ({
            let run = whole_run(plan, config, prompt, session_id, first, ios);
            let n = run.calls.len();
            let last = run.calls[n - 1]->ExecuteWithConfig_answer;
            &&& n >= 1
            &&& run.result is Ok <==> last is Ok && !text::blank(last->Ok_0.stdout)
            &&& run.result is Ok ==> run.result == last
            &&& n > 1 ==> ended_with(
                plan,
                n as int,
                last,
                inactivity_kills(run.calls),
                run.session_id,
                ios,
                run.result,
            )
            &&& n == 1 ==> match first.answer {
                Ok(output) => if text::blank(output.stdout) {
                    if first.logged is Err {
                        run.result == Err::<AgentOutputView, PortErrorView>(first.logged->Err_0)
                    } else if output.session_id() is None {
                        run.result is Err && run.result->Err_0 is AgentNoResponse
                    } else {
                        stopped(
                            plan,
                            1,
                            first.answer,
                            0,
                            run.session_id,
                            ios,
                            run.result,
                        )
                    }
                } else {
                    run.result == first.answer
                },
                Err(e) => if e is AgentInactivity {
                    if first.logged is Err {
                        run.result == Err::<AgentOutputView, PortErrorView>(first.logged->Err_0)
                    } else {
                        stopped(
                            plan,
                            1,
                            first.answer,
                            1,
                            run.session_id,
                            ios,
                            run.result,
                        )
                    }
                } else if e.resumable() && e.session_id() is Some {
                    stopped(plan, 1, first.answer, 0, run.session_id, ios, run.result)
                } else {
                    run.result == first.answer
                },
            }
        }),
{
    let now = first_attempt(plan, config, prompt, session_id, first);
    let run = whole_run(plan, config, prompt, session_id, first, ios);
    reveal_with_fuel(inactivity_kills, 2);
    assert(now.calls.drop_last() =~= Seq::empty());
    if let Turn::Next(next) = now.turn {
        let rest = retries(plan, 1, next, ios);
        retries_end_for_a_reason(plan, 1, next, ios, first.answer);
        inactivity_kills_add(now.calls, rest.calls);
        if rest.calls.len() > 0 {
            assert(run.calls[run.calls.len() - 1] == rest.calls[rest.calls.len() - 1]);
        }
    }
}

/// An answer that another attempt can mend: none but white space, or an error
/// that allows it.
pub open spec fn mendable(answer: Answer<AgentOutputView>) -> bool {
    match answer {
        Ok(output) => text::blank(output.stdout),
        Err(e) => e.resumable(),
    }
}

proof fn retries_follow_what_can_be_mended(
    plan: PlanView,
    attempt: nat,
    s: ResumeView,
    ios: Seq<RetryIo>,
)
    requires
        1 <= attempt,
    ensures
        ({
            let calls = retries(plan, attempt, s, ios).calls;
            forall|i: int|
                0 <= i < calls.len() - 1 ==> mendable(
                    (#[trigger] calls[i])->ExecuteWithConfig_answer,
                ) && (calls[i]->ExecuteWithConfig_answer is Err ==> leaves(
                    plan,
                    ios[attempt - 1 + i].ended,
                    5_000_000_000,
                ))
        }),
    decreases MAX_RETRIES + 1 - attempt,
{
    if attempt <= MAX_RETRIES {
        let now = retry_attempt(plan, attempt, s, ios[attempt - 1]);
        let calls = retries(plan, attempt, s, ios).calls;
        if let Turn::Next(next) = now.turn {
            retries_follow_what_can_be_mended(plan, attempt + 1, next, ios);
            let rest = retries(plan, attempt + 1, next, ios).calls;
            assert forall|i: int| 0 <= i < calls.len() - 1 implies mendable(
                (#[trigger] calls[i])->ExecuteWithConfig_answer,
            ) && (calls[i]->ExecuteWithConfig_answer is Err ==> leaves(
                plan,
                ios[attempt - 1 + i].ended,
                5_000_000_000,
            )) by {
                if i > 0 {
                    assert(calls[i] == rest[i - 1]);
                } else {
                    assert(calls[0] == now.calls[0]);
                }
            }
        }
    }
}

/// Only what another attempt can mend is followed by one; after a retry that
/// failed, only while the budget leaves five seconds.
pub proof fn only_mendable_answers_are_followed_up(
    plan: PlanView,
    config: AgentConfigView,
    prompt: Seq<char>,
    session_id: Option<Seq<char>>,
    first: FirstIo,
    ios: Seq<RetryIo>,
    i: int,
)
    ensures
        ({
            let calls = whole_run(plan, config, prompt, session_id, first, ios).calls;
            0 <= i < calls.len() - 1 ==> {
                &&& mendable(calls[i]->ExecuteWithConfig_answer)
                &&& i > 0 && calls[i]->ExecuteWithConfig_answer is Err ==> leaves(
                    plan,
                    ios[i - 1].ended,
                    5_000_000_000,
                )
            }
        }),
{
    let now = first_attempt(plan, config, prompt, session_id, first);
    let calls = whole_run(plan, config, prompt, session_id, first, ios).calls;
    if let Turn::Next(next) = now.turn {
        retries_follow_what_can_be_mended(plan, 1, next, ios);
        let rest = retries(plan, 1, next, ios).calls;
        if 0 < i < calls.len() - 1 {
            assert(calls[i] == rest[i - 1]);
        }
    }
}

/// Whether a log call appends a fact about a subject, in the attempt of that
/// number, at the time it is made.
pub open spec fn tells_of(subject: Subject, attempt: nat, call: LoomLogCall) -> bool {
    match call {
        LoomLogCall::Append { fact, stamped, .. } => {
            &&& stamped
            &&& match fact {
                LoomFact::KnotEmptyResponse { loom_id, knot_id, strand_path, attempt: n } => {
                    loom_id == subject.loom_id && knot_id == subject.knot_id && strand_path
                        == subject.strand_path && n == attempt
                },
                LoomFact::SessionResumed { loom_id, knot_id, strand_path, attempt: n, .. } => {
                    loom_id == subject.loom_id && knot_id == subject.knot_id && strand_path
                        == subject.strand_path && n == attempt
                },
                LoomFact::AgentInactivity { loom_id, knot_id, strand_path, attempt: n, .. } => {
                    loom_id == subject.loom_id && knot_id == subject.knot_id && strand_path
                        == subject.strand_path && n == attempt
                },
                LoomFact::ContextCompacted { loom_id, knot_id, strand_path, attempt: n, .. } => {
                    loom_id == subject.loom_id && knot_id == subject.knot_id && strand_path
                        == subject.strand_path && n == attempt
                },
                _ => false,
            }
        },
        _ => false,
    }
}

proof fn compactions_are_told(
    subject: Subject,
    session_id: Option<Seq<char>>,
    records: Seq<CompactionRecordView>,
    attempt: nat,
)
    requires
        attempt <= 11,
    ensures
        ({
            let facts = compacted_facts(subject, session_id, records, attempt);
            forall|i: int|
                0 <= i < facts.len() ==> (#[trigger] facts[i]) is ContextCompacted && tells_of(
                    subject,
                    attempt,
                    append_call(facts[i], Ok(())),
                )
        }),
    decreases records.len(),
{
    if records.len() > 0 {
        compactions_are_told(subject, session_id, records.drop_last(), attempt);
    }
}

/// The log entries at and behind an offset tell of the subject, each in the
/// attempt that the resumptions before it make it.
spec fn numbered(subject: Subject, before: nat, log: Seq<LoomLogCall>) -> bool {
    forall|i: int|
        0 <= i < log.len() ==> tells_of(
            subject,
            before + resumptions(log.take(i)) + 1,
            #[trigger] log[i],
        )
}

proof fn numbered_in_turn(subject: Subject, before: nat, a: Seq<LoomLogCall>, b: Seq<LoomLogCall>)
    requires
        numbered(subject, before, a),
        numbered(subject, before + resumptions(a), b),
    ensures
        numbered(subject, before, a + b),
{
    let log = a + b;
    assert forall|i: int| 0 <= i < log.len() implies tells_of(
        subject,
        before + resumptions(log.take(i)) + 1,
        #[trigger] log[i],
    ) by {
        if i < a.len() {
            assert(log.take(i) =~= a.take(i));
            assert(log[i] == a[i]);
        } else {
            let k = i - a.len();
            assert(log.take(i) =~= a + b.take(k));
            resumptions_add(a, b.take(k));
            assert(log[i] == b[k]);
        }
    }
}

proof fn outputs_are_numbered(
    subject: Subject,
    output: AgentOutputView,
    attempt: nat,
    answers: Seq<Answer<()>>,
)
    requires
        1 <= attempt <= 11,
    ensures
        numbered(
            subject,
            (attempt - 1) as nat,
            append_calls(output_facts(subject, output, attempt), answers),
        ),
{
    if output.metadata is Some {
        let m = output.metadata->0;
        let facts = compacted_facts(subject, m.session_id, m.compactions, attempt);
        let log = append_calls(facts, answers);
        compactions_are_told(subject, m.session_id, m.compactions, attempt);
        compactions_are_no_resumptions(subject, m.session_id, m.compactions, attempt, answers);
        assert forall|i: int| 0 <= i < log.len() implies tells_of(
            subject,
            (attempt - 1) as nat + resumptions(log.take(i)) + 1,
            #[trigger] log[i],
        ) by {
            resumptions_add(log.take(i), log.skip(i));
            assert(log =~= log.take(i) + log.skip(i));
            assert(facts[i] is ContextCompacted);
        }
    }
}

#[verifier::spinoff_prover]
#[verifier::rlimit(40)]
proof fn retries_are_numbered_from(plan: PlanView, attempt: nat, s: ResumeView, ios: Seq<RetryIo>)
    requires
        1 <= attempt <= MAX_RETRIES + 1,
    ensures
        numbered(
            plan.subject,
            (attempt - 1) as nat,
            retries(plan, attempt, s, ios).log,
        ),
    decreases MAX_RETRIES + 1 - attempt,
{
    if attempt <= MAX_RETRIES {
        let io = ios[attempt - 1];
        let now = retry_attempt(plan, attempt, s, io);
        let (log, turn) = answered_turn(plan, attempt, s, io);
        let resumed = append_call(
            resumed_fact(plan.subject, retry_session(s), attempt),
            io.resumed,
        );
        reveal_with_fuel(resumptions, 2);
        assert(seq![resumed].take(0) =~= Seq::empty());
        assert(seq![resumed].drop_last() =~= Seq::empty());
        assert(numbered(plan.subject, (attempt - 1) as nat, seq![resumed]));
        if io.answer is Ok && !text::blank(io.answer->Ok_0.stdout) {
            outputs_are_numbered(plan.subject, io.answer->Ok_0, attempt + 1, io.compacted);
            output_is_no_resumption(plan.subject, io.answer->Ok_0, attempt + 1, io.compacted);
        } else if log.len() > 0 {
            assert(log.take(0) =~= Seq::empty());
            assert(log.drop_last() =~= Seq::empty());
        }
        assert(numbered(plan.subject, attempt, log));
        assert(resumptions(log) == 0);
        numbered_in_turn(plan.subject, (attempt - 1) as nat, seq![resumed], log);
        resumptions_add(seq![resumed], log);
        if now.calls.len() > 0 {
            assert(now.log =~= seq![resumed] + log);
        }
        if let Turn::Next(next) = now.turn {
            retries_are_numbered_from(plan, attempt + 1, next, ios);
            numbered_in_turn(
                plan.subject,
                (attempt - 1) as nat,
                now.log,
                retries(plan, attempt + 1, next, ios).log,
            );
        }
    }
}

/// Whatever a run logs is about its strand, and carries the number of its
/// attempt: one more than the retries that the log told of before it.
#[verifier::spinoff_prover]
#[verifier::rlimit(30)]
pub proof fn attempts_are_numbered(
    plan: PlanView,
    config: AgentConfigView,
    prompt: Seq<char>,
    session_id: Option<Seq<char>>,
    first: FirstIo,
    ios: Seq<RetryIo>,
    i: int,
)
    ensures
        ({
            let log = whole_run(plan, config, prompt, session_id, first, ios).log;
            0 <= i < log.len() ==> tells_of(
                plan.subject,
                resumptions(log.take(i)) + 1,
                log[i],
            )
        }),
{
    let now = first_attempt(plan, config, prompt, session_id, first);
    let log = whole_run(plan, config, prompt, session_id, first, ios).log;
    if first.answer is Ok && !text::blank(first.answer->Ok_0.stdout) {
        outputs_are_numbered(plan.subject, first.answer->Ok_0, 1, first.compacted);
    } else if now.log.len() > 0 {
        reveal_with_fuel(resumptions, 2);
        assert(now.log.take(0) =~= Seq::empty());
        assert(now.log.drop_last() =~= Seq::empty());
    }
    assert(numbered(plan.subject, 0, now.log));
    if let Turn::Next(next) = now.turn {
        retries_are_numbered_from(plan, 1, next, ios);
        numbered_in_turn(plan.subject, 0, now.log, retries(plan, 1, next, ios).log);
    }
    assert(numbered(plan.subject, 0, log));
}

proof fn compactions_are_logged_in_order(
    subject: Subject,
    session_id: Option<Seq<char>>,
    records: Seq<CompactionRecordView>,
    attempt: nat,
    i: int,
)
    ensures
        ({
            let facts = compacted_facts(subject, session_id, records, attempt);
            let done = records.filter(|r: CompactionRecordView| r.error is None && !r.aborted);
            &&& facts.len() == done.len()
            &&& 0 <= i < done.len() ==> facts[i] == (LoomFact::ContextCompacted {
                loom_id: subject.loom_id,
                knot_id: subject.knot_id,
                strand_path: subject.strand_path,
                session_id: if session_id is Some {
                    session_id->0
                } else {
                    Seq::empty()
                },
                reason: done[i].reason,
                tokens_before: done[i].tokens_before,
                attempt: attempt as u32,
            })
        }),
    decreases records.len(),
{
    reveal(Seq::filter);
    if records.len() > 0 {
        compactions_are_logged_in_order(subject, session_id, records.drop_last(), attempt, i);
    }
}

proof fn last_outputs_are_logged(
    plan: PlanView,
    attempt: nat,
    s: ResumeView,
    ios: Seq<RetryIo>,
)
    requires
        1 <= attempt <= MAX_RETRIES + 1,
    ensures
        ({
            let run = retries(plan, attempt, s, ios);
            run.result is Ok ==> {
                let n = run.calls.len();
                let facts = output_facts(plan.subject, run.result->Ok_0, attempt + n);
                &&& n > 0
                &&& run.log.len() >= facts.len()
                &&& run.log.skip(run.log.len() - facts.len()) == append_calls(
                    facts,
                    ios[attempt - 1 + n - 1].compacted,
                )
            }
        }),
    decreases MAX_RETRIES + 1 - attempt,
{
    if attempt <= MAX_RETRIES {
        let io = ios[attempt - 1];
        let now = retry_attempt(plan, attempt, s, io);
        let run = retries(plan, attempt, s, ios);
        match now.turn {
            Turn::Next(next) => {
                last_outputs_are_logged(plan, attempt + 1, next, ios);
                let rest = retries(plan, attempt + 1, next, ios);
                if run.result is Ok {
                    let facts = output_facts(
                        plan.subject,
                        run.result->Ok_0,
                        attempt + run.calls.len(),
                    );
                    assert(run.log.skip(run.log.len() - facts.len()) =~= rest.log.skip(
                        rest.log.len() - facts.len(),
                    ));
                }
            },
            Turn::Done(result, _) => {
                if result is Ok {
                    let facts = output_facts(plan.subject, result->Ok_0, attempt + 1);
                    assert(run.log.skip(run.log.len() - facts.len()) =~= append_calls(
                        facts,
                        io.compacted,
                    ));
                }
            },
        }
    }
}

/// The compactions that a response reports are logged last, in order, each
/// that neither failed nor was aborted and no other, with its reason and its
/// tokens, in the response's session, under the number of the last attempt.
#[verifier::spinoff_prover]
#[verifier::rlimit(30)]
pub proof fn compactions_are_logged(
    plan: PlanView,
    config: AgentConfigView,
    prompt: Seq<char>,
    session_id: Option<Seq<char>>,
    first: FirstIo,
    ios: Seq<RetryIo>,
    i: int,
)
    ensures
        ({
            let run = whole_run(plan, config, prompt, session_id, first, ios);
            run.result is Ok && run.result->Ok_0.metadata is Some ==> {
                let metadata = run.result->Ok_0.metadata->0;
                let done = metadata.compactions.filter(
                    |r: CompactionRecordView| r.error is None && !r.aborted,
                );
                let at = run.log.len() - done.len();
                &&& at >= 0
                &&& run.calls.len() == 1 ==> at == 0
                &&& 0 <= i < done.len() ==> {
                    &&& run.log[at + i] is Append
                    &&& run.log[at + i]->stamped
                    &&& run.log[at + i]->fact == (LoomFact::ContextCompacted {
                        loom_id: plan.subject.loom_id,
                        knot_id: plan.subject.knot_id,
                        strand_path: plan.subject.strand_path,
                        session_id: if metadata.session_id is Some {
                            metadata.session_id->0
                        } else {
                            Seq::empty()
                        },
                        reason: done[i].reason,
                        tokens_before: done[i].tokens_before,
                        attempt: run.calls.len() as u32,
                    })
                }
            }
        }),
{
    let now = first_attempt(plan, config, prompt, session_id, first);
    let run = whole_run(plan, config, prompt, session_id, first, ios);
    if run.result is Ok && run.result->Ok_0.metadata is Some {
        let metadata = run.result->Ok_0.metadata->0;
        let n = run.calls.len();
        compactions_are_logged_in_order(
            plan.subject,
            metadata.session_id,
            metadata.compactions,
            n,
            i,
        );
        let facts = output_facts(plan.subject, run.result->Ok_0, n);
        match now.turn {
            Turn::Next(next) => {
                let rest = retries(plan, 1, next, ios);
                last_outputs_are_logged(plan, 1, next, ios);
                assert(run.log.skip(run.log.len() - facts.len()) =~= rest.log.skip(
                    rest.log.len() - facts.len(),
                ));
            },
            Turn::Done(_, _) => {
                assert(run.log.skip(0) =~= run.log);
            },
        }
        if 0 <= i < facts.len() {
            let at = run.log.len() - facts.len();
            assert(run.log[at + i] == run.log.skip(at)[i]);
        }
    }
}

/// A run without a response is over in a known session when its last call was
/// made in one or its last error names one.
pub proof fn sessions_outlast_the_run(
    plan: PlanView,
    attempt: nat,
    s: ResumeView,
    ios: Seq<RetryIo>,
)
    requires
        1 <= attempt,
        retry_session(s) == s.session_id,
    ensures
        ({
            let run = retries(plan, attempt, s, ios);
            let n = run.calls.len();
            let last = run.calls[n - 1];
            let before = if n > 1 {
                run.calls[n - 2]->ExecuteWithConfig_request.agent_config.extra_args
            } else {
                s.config.extra_args
            };
            &&& n == 0 ==> run.session_id == s.session_id
            &&& n > 0 ==> run.session_id == (match last->ExecuteWithConfig_answer {
                Ok(output) if !text::blank(output.stdout) && output.session_id() is Some => output.session_id(),
                _ => known_after(before, last),
            })
        }),
    decreases MAX_RETRIES + 1 - attempt,
{
    if attempt <= MAX_RETRIES {
        let now = retry_attempt(plan, attempt, s, ios[attempt - 1]);
        let run = retries(plan, attempt, s, ios);
        if let Turn::Next(next) = now.turn {
            sessions_outlast_the_run(plan, attempt + 1, next, ios);
            let rest = retries(plan, attempt + 1, next, ios);
            let n = run.calls.len();
            if n > 1 {
                assert(run.calls[n - 1] == rest.calls[n - 2]);
                if n > 2 {
                    assert(run.calls[n - 2] == rest.calls[n - 3]);
                } else {
                    assert(run.calls[0] == now.calls[0]);
                }
            }
        }
    }
}

/// The delay before a retry is the milliseconds set for it, or else ten
/// seconds.
pub proof fn delays_are_as_set(setting: Option<u64>)
    ensures
        setting is Some ==> delay_set(setting).nanos == setting->0 * 1_000_000,
        setting is None ==> delay_set(setting).nanos == 10_000_000_000,
{
}

/// The note on an inactivity kill tells how long the agent was silent, and how
/// often it must be heard: in minutes for a whole number of minutes, in
/// seconds otherwise.
pub proof fn restart_notes_tell_the_window(silent_secs: u64, window_secs: u64, minutes: u64)
    ensures
        window_secs == minutes * 60 ==> restart_note(silent_secs, window_secs)
            == "Your last call blocked for more than "@ + text::decimal(silent_secs as nat)
            + " seconds with no output, so your previous turn was stopped. If you have a long-running task, ensure it emits a progress update at least once within the "@
            + (text::decimal(minutes as nat) + "-minute window"@)
            + " (e.g. run it in the background and poll its output, or stream the output). Continue from where you left off and produce your final response when done."@,
        window_secs % 60 != 0 ==> restart_note(silent_secs, window_secs)
            == "Your last call blocked for more than "@ + text::decimal(silent_secs as nat)
            + " seconds with no output, so your previous turn was stopped. If you have a long-running task, ensure it emits a progress update at least once within the "@
            + (text::decimal(window_secs as nat) + "-second window"@)
            + " (e.g. run it in the background and poll its output, or stream the output). Continue from where you left off and produce your final response when done."@,
{
}

/// Events are asked for again in the session, behind the arguments that the
/// configuration has, without a strand file and without the profile's prompt;
/// the request ends with the instructions, and everything else is as given.
pub proof fn events_are_asked_for_in_the_session(
    config: AgentConfigView,
    session_id: Seq<char>,
    strand_path: Seq<char>,
    listener_context: Seq<char>,
    event_type: Seq<char>,
    knot_name: Option<Seq<char>>,
    timeout: Option<TimeSpan>,
)
    ensures
        ({
            let request = event_request(
                config,
                session_id,
                strand_path,
                listener_context,
                event_type,
                knot_name,
                timeout,
            );
            &&& request.agent_config.extra_args == config.extra_args + seq![
                "--session-id"@,
                session_id,
            ]
            &&& request.agent_config.goal == config.goal
            &&& request.agent_config.provider == config.provider
            &&& request.agent_config.model == config.model
            &&& request.agent_config.tools == config.tools
            &&& request.agent_config.thinking_level == config.thinking_level
            &&& request.agent_config.ctx_wrap_up_limit == config.ctx_wrap_up_limit
            &&& request.strand_path == strand_path
            &&& request.strand_file_ref is None
            &&& request.prompt
                == "Your previous response did not contain any agent event blocks.\n\nPlease emit events as instructed below:\n\n"@
                + listener_context
            &&& request.profile_prompt.len() == 0
            &&& request.event_type == event_type
            &&& request.knot_name == knot_name
            &&& request.timeout == timeout
        }),
{
}

/// Whether a fact about an answered call is true of it, given the arguments of
/// the call before: an empty response was one, an inactivity kill has the
/// values of the kill and the session known by then, and a compaction is told of
/// a response.
pub open spec fn true_of(before: Seq<Seq<char>>, call: RunnerCall, fact: LoomFact) -> bool {
    let answer = call->ExecuteWithConfig_answer;
    match fact {
        LoomFact::KnotEmptyResponse { .. } => answer is Ok && text::blank(answer->Ok_0.stdout),
        LoomFact::ContextCompacted { .. } => answer is Ok && !text::blank(answer->Ok_0.stdout),
        LoomFact::AgentInactivity { session_id, silent_secs, window_secs, blocked_call, .. } => {
            &&& answer is Err
            &&& answer->Err_0 is AgentInactivity
            &&& answer->Err_0->silent_secs == silent_secs
            &&& answer->Err_0->window_secs == window_secs
            &&& answer->Err_0->blocked_call == blocked_call
            &&& session_id == (match known_after(before, call) {
                Some(sid) => sid,
                None => Seq::empty(),
            })
        },
        _ => false,
    }
}

/// Whether the log tells a retry in the session that the retry enters.
pub open spec fn announces(before: RunnerCall, call: RunnerCall, session_id: Seq<char>) -> bool {
    let earlier = before->ExecuteWithConfig_request.agent_config.extra_args;
    let args = call->ExecuteWithConfig_request.agent_config.extra_args;
    session_id == (if args.len() == earlier.len() {
        Seq::empty()
    } else {
        args.last()
    })
}

/// Whether each entry of a log is true of the calls: the entry that announces a
/// retry of the call that follows, any other of the call that was made last.
spec fn truthful(calls: Seq<RunnerCall>, log: Seq<LoomLogCall>) -> bool {
    forall|k: int|
        0 <= k < log.len() ==> {
            let m = resumptions(log.take(k)) as int;
            match (#[trigger] log[k])->fact {
                LoomFact::SessionResumed { session_id, .. } => m + 1 < calls.len() ==> announces(
                    calls[m],
                    calls[m + 1],
                    session_id,
                ),
                fact => 1 <= m < calls.len() && true_of(
                    calls[m - 1]->ExecuteWithConfig_request.agent_config.extra_args,
                    calls[m],
                    fact,
                ),
            }
        }
}

#[verifier::spinoff_prover]
#[verifier::rlimit(40)]
proof fn retries_are_told_truthfully(
    plan: PlanView,
    attempt: nat,
    s: ResumeView,
    ios: Seq<RetryIo>,
    before: RunnerCall,
)
    requires
        1 <= attempt <= MAX_RETRIES + 1,
        s.config == before->ExecuteWithConfig_request.agent_config,
    ensures
        truthful(
            seq![before] + retries(plan, attempt, s, ios).calls,
            retries(plan, attempt, s, ios).log,
        ),
    decreases MAX_RETRIES + 1 - attempt,
{
    if attempt <= MAX_RETRIES {
        let io = ios[attempt - 1];
        let now = retry_attempt(plan, attempt, s, io);
        let run = retries(plan, attempt, s, ios);
        let calls = seq![before] + run.calls;
        let (own, turn) = answered_turn(plan, attempt, s, io);
        let resumed = append_call(
            resumed_fact(plan.subject, retry_session(s), attempt),
            io.resumed,
        );
        reveal_with_fuel(resumptions, 2);
        assert(seq![resumed].drop_last() =~= Seq::empty());
        if now.calls.len() > 0 {
            let last = now.calls[0];
            let args = s.config.extra_args;
            assert(calls[1] == last);
            assert(now.log =~= seq![resumed] + own);
            if io.answer is Ok && !text::blank(io.answer->Ok_0.stdout) {
                output_is_no_resumption(plan.subject, io.answer->Ok_0, attempt + 1, io.compacted);
                let output = io.answer->Ok_0;
                if output.metadata is Some {
                    compactions_are_told(
                        plan.subject,
                        output.metadata->0.session_id,
                        output.metadata->0.compactions,
                        attempt + 1,
                    );
                }
            } else if own.len() > 0 {
                assert(own.drop_last() =~= Seq::empty());
            }
            assert(resumptions(own) == 0);
            resumptions_add(seq![resumed], own);
            assert(forall|k: int|
                0 <= k < own.len() ==> !((#[trigger] own[k])->fact is SessionResumed) && true_of(
                    args,
                    last,
                    own[k]->fact,
                ));
            assert forall|k: int| 0 <= k < now.log.len() implies {
                let m = resumptions(now.log.take(k)) as int;
                &&& k == 0 ==> m == 0
                &&& k > 0 ==> m == 1
                &&& k > 0 ==> #[trigger] now.log[k] == own[k - 1]
            } by {
                if k == 0 {
                    assert(now.log.take(0) =~= Seq::empty());
                } else {
                    assert(now.log.take(k) =~= seq![resumed] + own.take(k - 1));
                    resumptions_add(seq![resumed], own.take(k - 1));
                    assert(own =~= own.take(k - 1) + own.skip(k - 1));
                    resumptions_add(own.take(k - 1), own.skip(k - 1));
                }
            }
        } else {
            assert(now.log.len() <= 1);
            if now.log.len() == 1 {
                assert(now.log =~= seq![resumed]);
                assert(now.log.take(0) =~= Seq::empty());
            }
        }
        match now.turn {
            Turn::Next(next) => {
                let last = now.calls[0];
                let rest = retries(plan, attempt + 1, next, ios);
                let later = seq![last] + rest.calls;
                retries_are_told_truthfully(plan, attempt + 1, next, ios, last);
                assert forall|k: int| 0 <= k < run.log.len() implies {
                    let m = resumptions(run.log.take(k)) as int;
                    match (#[trigger] run.log[k])->fact {
                        LoomFact::SessionResumed { session_id, .. } => m + 1 < calls.len()
                            ==> announces(calls[m], calls[m + 1], session_id),
                        fact => 1 <= m < calls.len() && true_of(
                            calls[m - 1]->ExecuteWithConfig_request.agent_config.extra_args,
                            calls[m],
                            fact,
                        ),
                    }
                } by {
                    if k < now.log.len() {
                        assert(run.log.take(k) =~= now.log.take(k));
                        assert(run.log[k] == now.log[k]);
                    } else {
                        let j = k - now.log.len();
                        assert(run.log.take(k) =~= now.log + rest.log.take(j));
                        resumptions_add(now.log, rest.log.take(j));
                        assert(run.log[k] == rest.log[j]);
                        let m = resumptions(run.log.take(k)) as int;
                        assert(resumptions(rest.log.take(j)) == m - 1);
                        if 1 <= m && m < calls.len() {
                            assert(calls[m] == later[m - 1]);
                        }
                        if 1 <= m && m + 1 < calls.len() {
                            assert(calls[m + 1] == later[m]);
                        }
                        if 2 <= m && m - 1 < calls.len() {
                            assert(calls[m - 1] == later[m - 2]);
                        }
                    }
                }
            },
            Turn::Done(_, _) => {
                assert forall|k: int| 0 <= k < run.log.len() implies {
                    let m = resumptions(run.log.take(k)) as int;
                    match (#[trigger] run.log[k])->fact {
                        LoomFact::SessionResumed { session_id, .. } => m + 1 < calls.len()
                            ==> announces(calls[m], calls[m + 1], session_id),
                        fact => 1 <= m < calls.len() && true_of(
                            calls[m - 1]->ExecuteWithConfig_request.agent_config.extra_args,
                            calls[m],
                            fact,
                        ),
                    }
                } by {
                    assert(run.log[k] == now.log[k]);
                }
            },
        }
    }
}

/// A run's log is true of its calls. What announces a retry names the session
/// that the retry enters, or none. Whatever else is told behind a retry's
/// announcement is true of that retry.
#[verifier::spinoff_prover]
#[verifier::rlimit(40)]
pub proof fn logs_tell_the_truth(
    plan: PlanView,
    config: AgentConfigView,
    prompt: Seq<char>,
    session_id: Option<Seq<char>>,
    first: FirstIo,
    ios: Seq<RetryIo>,
    k: int,
)
    ensures
        ({
            let run = whole_run(plan, config, prompt, session_id, first, ios);
            0 <= k < run.log.len() ==> {
                let m = resumptions(run.log.take(k)) as int;
                match run.log[k]->fact {
                    LoomFact::SessionResumed { session_id, .. } => m + 1 < run.calls.len()
                        ==> announces(run.calls[m], run.calls[m + 1], session_id),
                    fact => m >= 1 ==> m < run.calls.len() && true_of(
                        run.calls[m - 1]->ExecuteWithConfig_request.agent_config.extra_args,
                        run.calls[m],
                        fact,
                    ),
                }
            }
        }),
{
    let now = first_attempt(plan, config, prompt, session_id, first);
    let run = whole_run(plan, config, prompt, session_id, first, ios);
    reveal_with_fuel(resumptions, 2);
    if first.answer is Ok && !text::blank(first.answer->Ok_0.stdout) {
        let output = first.answer->Ok_0;
        output_is_no_resumption(plan.subject, output, 1, first.compacted);
        if output.metadata is Some {
            compactions_are_told(
                plan.subject,
                output.metadata->0.session_id,
                output.metadata->0.compactions,
                1,
            );
        }
    } else if now.log.len() > 0 {
        assert(now.log.drop_last() =~= Seq::empty());
    }
    assert(resumptions(now.log) == 0);
    if 0 <= k < run.log.len() {
        if k < now.log.len() {
            assert(run.log.take(k) =~= now.log.take(k));
            assert(now.log =~= now.log.take(k) + now.log.skip(k));
            resumptions_add(now.log.take(k), now.log.skip(k));
            assert(run.log[k] == now.log[k]);
            assert(!(now.log[k]->fact is SessionResumed));
        } else if let Turn::Next(next) = now.turn {
            let rest = retries(plan, 1, next, ios);
            let j = k - now.log.len();
            retries_are_told_truthfully(plan, 1, next, ios, now.calls[0]);
            assert(run.calls =~= seq![now.calls[0]] + rest.calls);
            assert(run.log.take(k) =~= now.log + rest.log.take(j));
            resumptions_add(now.log, rest.log.take(j));
            assert(run.log[k] == rest.log[j]);
        }
    }
}

/// How many empty responses and inactivity kills a log tells of.
pub open spec fn setbacks_told(log: Seq<LoomLogCall>) -> nat
    decreases log.len(),
{
    if log.len() == 0 {
        0
    } else {
        setbacks_told(log.drop_last()) + if log.last()->fact is KnotEmptyResponse
            || log.last()->fact is AgentInactivity {
            1nat
        } else {
            0
        }
    }
}

/// How many of the calls were answered with nothing or stopped for inactivity.
pub open spec fn setbacks(calls: Seq<RunnerCall>) -> nat
    decreases calls.len(),
{
    if calls.len() == 0 {
        0
    } else {
        let answer = calls.last()->ExecuteWithConfig_answer;
        setbacks(calls.drop_last()) + if (answer is Ok && text::blank(answer->Ok_0.stdout)) || (
        answer is Err && answer->Err_0 is AgentInactivity) {
            1nat
        } else {
            0
        }
    }
}

proof fn setbacks_told_add(a: Seq<LoomLogCall>, b: Seq<LoomLogCall>)
    ensures
        setbacks_told(a + b) == setbacks_told(a) + setbacks_told(b),
    decreases b.len(),
{
    if b.len() == 0 {
        assert(a + b =~= a);
    } else {
        assert((a + b).drop_last() =~= a + b.drop_last());
        setbacks_told_add(a, b.drop_last());
    }
}

proof fn setbacks_add(a: Seq<RunnerCall>, b: Seq<RunnerCall>)
    ensures
        setbacks(a + b) == setbacks(a) + setbacks(b),
    decreases b.len(),
{
    if b.len() == 0 {
        assert(a + b =~= a);
    } else {
        assert((a + b).drop_last() =~= a + b.drop_last());
        setbacks_add(a, b.drop_last());
    }
}

proof fn compactions_are_no_setbacks(
    subject: Subject,
    session_id: Option<Seq<char>>,
    records: Seq<CompactionRecordView>,
    attempt: nat,
    answers: Seq<Answer<()>>,
)
    ensures
        setbacks_told(
            append_calls(compacted_facts(subject, session_id, records, attempt), answers),
        ) == 0,
    decreases records.len(),
{
    if records.len() > 0 {
        let before = compacted_facts(subject, session_id, records.drop_last(), attempt);
        let facts = compacted_facts(subject, session_id, records, attempt);
        compactions_are_no_setbacks(subject, session_id, records.drop_last(), attempt, answers);
        if records.last().succeeded() {
            assert(append_calls(facts, answers).drop_last() =~= append_calls(before, answers));
            assert(append_calls(facts, answers).last() == append_call(
                facts.last(),
                answers[facts.len() - 1],
            ));
        }
    }
}

#[verifier::spinoff_prover]
#[verifier::rlimit(30)]
proof fn retries_tell_their_setbacks(plan: PlanView, attempt: nat, s: ResumeView, ios: Seq<RetryIo>)
    requires
        1 <= attempt <= MAX_RETRIES + 1,
    ensures
        ({
            let run = retries(plan, attempt, s, ios);
            &&& setbacks_told(run.log) <= setbacks(run.calls) <= setbacks_told(run.log) + 1
            &&& plan.budget is None ==> setbacks_told(run.log) == setbacks(run.calls)
        }),
    decreases MAX_RETRIES + 1 - attempt,
{
    if attempt <= MAX_RETRIES {
        let io = ios[attempt - 1];
        let now = retry_attempt(plan, attempt, s, io);
        let (own, turn) = answered_turn(plan, attempt, s, io);
        let resumed = append_call(
            resumed_fact(plan.subject, retry_session(s), attempt),
            io.resumed,
        );
        reveal_with_fuel(setbacks_told, 2);
        reveal_with_fuel(setbacks, 2);
        assert(seq![resumed].drop_last() =~= Seq::empty());
        setbacks_told_add(seq![resumed], own);
        if io.answer is Ok && !text::blank(io.answer->Ok_0.stdout) {
            let output = io.answer->Ok_0;
            if output.metadata is Some {
                compactions_are_no_setbacks(
                    plan.subject,
                    output.metadata->0.session_id,
                    output.metadata->0.compactions,
                    attempt + 1,
                    io.compacted,
                );
            }
        } else if own.len() > 0 {
            assert(own.drop_last() =~= Seq::empty());
        }
        if now.calls.len() > 0 {
            assert(now.calls.drop_last() =~= Seq::empty());
        }
        if let Turn::Next(next) = now.turn {
            let rest = retries(plan, attempt + 1, next, ios);
            retries_tell_their_setbacks(plan, attempt + 1, next, ios);
            setbacks_told_add(now.log, rest.log);
            setbacks_add(now.calls, rest.calls);
        }
    }
}

/// Every empty response and every inactivity kill is told, but for a last kill
/// that used up the budget.
pub proof fn setbacks_are_told(
    plan: PlanView,
    config: AgentConfigView,
    prompt: Seq<char>,
    session_id: Option<Seq<char>>,
    first: FirstIo,
    ios: Seq<RetryIo>,
)
    ensures
        ({
            let run = whole_run(plan, config, prompt, session_id, first, ios);
            &&& setbacks_told(run.log) <= setbacks(run.calls) <= setbacks_told(run.log) + 1
            &&& plan.budget is None ==> setbacks_told(run.log) == setbacks(run.calls)
        }),
{
    let now = first_attempt(plan, config, prompt, session_id, first);
    reveal_with_fuel(setbacks_told, 2);
    reveal_with_fuel(setbacks, 2);
    assert(now.calls.drop_last() =~= Seq::empty());
    if first.answer is Ok && !text::blank(first.answer->Ok_0.stdout) {
        let output = first.answer->Ok_0;
        if output.metadata is Some {
            compactions_are_no_setbacks(
                plan.subject,
                output.metadata->0.session_id,
                output.metadata->0.compactions,
                1,
                first.compacted,
            );
        }
    } else if now.log.len() > 0 {
        assert(now.log.drop_last() =~= Seq::empty());
    }
    if let Turn::Next(next) = now.turn {
        let rest = retries(plan, 1, next, ios);
        retries_tell_their_setbacks(plan, 1, next, ios);
        setbacks_told_add(now.log, rest.log);
        setbacks_add(now.calls, rest.calls);
    }
}

} // verus!
