//! Session-resume retries.

use knot::entities::{AgentConfig, KnotId, LoomId, StrandPath};
use knot::errors::PortError;
use knot::events::LoomEvent;
use knot::outside::Outside;
use knot::ports::{
    context_for, manual_compact_unsupported, AgentInvocationMetadata, AgentOutput, AgentRunner,
    CompactionObservation, CompactionRecord, ExecutionContext, LoomLogPort,
};
use knot::session_resume::{
    execute_with_resume, execute_with_resume_internal, inactivity_restart_note,
    inject_event_request, retry_delay, FINAL_RESPONSE_REQUEST,
};
use knot::time::TimeSpan;
use knot::trace::Trace;
use std::cell::Cell;
use std::collections::VecDeque;

struct TestAgentRunner {
    responses: VecDeque<Result<AgentOutput, PortError>>,
    contexts: Vec<ExecutionContext>,
}

impl TestAgentRunner {
    fn new(responses: Vec<Result<AgentOutput, PortError>>) -> Self {
        Self { responses: responses.into(), contexts: Vec::new() }
    }

    fn contexts(&self) -> Vec<ExecutionContext> {
        self.contexts.clone()
    }

    fn call_count(&self) -> usize {
        self.contexts.len()
    }
}

impl AgentRunner for TestAgentRunner {
    fn execute(&mut self, ctx: ExecutionContext) -> Result<AgentOutput, PortError> {
        self.contexts.push(ctx);
        match self.responses.pop_front() {
            Some(result) => result,
            None => Err(PortError::Timeout {
                message: "exhausted".to_string(),
                session_id: Some("sess-test".to_string()),
            }),
        }
    }

    fn execute_with_config(
        &mut self,
        agent_config: &AgentConfig,
        strand_path: StrandPath,
        _strand_file_ref: Option<StrandPath>,
        prompt: String,
        profile_prompt: String,
        event_type: String,
        knot_name: Option<String>,
        timeout: Option<TimeSpan>,
    ) -> Result<AgentOutput, PortError> {
        self.execute(context_for(
            agent_config,
            strand_path,
            prompt,
            profile_prompt,
            event_type,
            knot_name,
            timeout,
        ))
    }

    fn manual_compact(
        &mut self,
        _ctx: &ExecutionContext,
        session_id: &str,
        _custom_instructions: &str,
    ) -> Result<CompactionRecord, PortError> {
        Err(manual_compact_unsupported(session_id))
    }

    fn runner_type(&self) -> &str {
        "test"
    }
}

#[derive(Default)]
struct TestLoomLog {
    events: Vec<LoomEvent>,
    /// How many events are taken before the log refuses.
    full_after: Option<usize>,
}

impl TestLoomLog {
    fn events(&self) -> Vec<LoomEvent> {
        self.events.clone()
    }
}

impl LoomLogPort for TestLoomLog {
    fn open(&mut self, _loom_id: &LoomId) -> Result<(), PortError> {
        Ok(())
    }

    fn append(&mut self, event: LoomEvent) -> Result<(), PortError> {
        if self.full_after == Some(self.events.len()) {
            return Err(PortError::LoomLogAppendFailed("full".to_string()));
        }
        self.events.push(event);
        Ok(())
    }

    fn read_all(&mut self, _loom_id: &LoomId) -> Result<Vec<LoomEvent>, PortError> {
        Ok(self.events.clone())
    }
}

fn make_loom_id() -> LoomId {
    LoomId("test-loom".to_string())
}

fn make_knot_id() -> KnotId {
    KnotId("k1".to_string())
}

fn make_strand_path() -> StrandPath {
    StrandPath("input/strand.md".to_string())
}

fn ok_output(stdout: &str) -> AgentOutput {
    ok_output_with_sid(stdout, "sess-abc")
}

fn ok_output_with_sid(stdout: &str, sid: &str) -> AgentOutput {
    ok_output_with_compactions(stdout, sid, vec![])
}

fn err_timeout(sid: &str) -> PortError {
    PortError::Timeout { message: "timed out".to_string(), session_id: Some(sid.to_string()) }
}

fn err_timeout_no_sid() -> PortError {
    PortError::Timeout { message: "timed out".to_string(), session_id: None }
}

fn err_fatal() -> PortError {
    PortError::CommandNotFound("pi not found".to_string())
}

fn comp_rec(
    reason: &str,
    tokens_before: Option<u64>,
    will_retry: bool,
    error: Option<&str>,
) -> CompactionRecord {
    CompactionRecord {
        reason: reason.to_string(),
        tokens_before,
        will_retry,
        error: error.map(String::from),
        aborted: false,
    }
}

fn ok_output_with_compactions(
    stdout: &str,
    sid: &str,
    compactions: Vec<CompactionRecord>,
) -> AgentOutput {
    AgentOutput {
        stdout: stdout.to_string(),
        stderr: String::new(),
        exit_code: 0,
        metadata: Some(AgentInvocationMetadata {
            session_id: Some(sid.to_string()),
            token_usage: None,
            compactions,
            compaction_starts: vec![],
            wrap_up: None,
        }),
    }
}

fn err_context_limit(sid: &str) -> PortError {
    PortError::ContextLimitReached {
        message: "session context cannot fit the model window even after compaction".to_string(),
        session_id: Some(sid.to_string()),
    }
}

fn config() -> AgentConfig {
    AgentConfig {
        goal: "review".to_string(),
        provider: "openai".to_string(),
        model: "gpt-4o".to_string(),
        tools: vec![],
        extra_args: vec![],
        thinking_level: None,
        ctx_wrap_up_limit: None,
    }
}

/// A clock that stands still.
fn still(_pause: TimeSpan) -> TimeSpan {
    TimeSpan { nanos: 0 }
}

fn resume<C: Fn(TimeSpan) -> TimeSpan>(
    runner: &mut TestAgentRunner,
    log: &mut TestLoomLog,
    session_id: &mut Option<String>,
    timeout: Option<TimeSpan>,
    delay: TimeSpan,
    clock: &C,
) -> Result<AgentOutput, PortError> {
    execute_with_resume_internal(
        runner,
        log,
        &make_loom_id(),
        &make_knot_id(),
        &make_strand_path(),
        session_id,
        config(),
        "Review this document".to_string(),
        Some(make_strand_path()),
        "You are an editor.".to_string(),
        "Created".to_string(),
        Some("k1".to_string()),
        timeout,
        delay,
        &mut Outside::new(|pause: &TimeSpan| clock(*pause)),
        &mut Trace::new(),
    )
}

fn execute(
    runner: &mut TestAgentRunner,
    log: &mut TestLoomLog,
    timeout_secs: u64,
) -> Result<AgentOutput, PortError> {
    resume(
        runner,
        log,
        &mut None,
        Some(TimeSpan::from_secs(timeout_secs)),
        TimeSpan::from_millis(0),
        &still,
    )
}

fn execute_no_budget(
    runner: &mut TestAgentRunner,
    log: &mut TestLoomLog,
) -> Result<AgentOutput, PortError> {
    resume(runner, log, &mut None, None, TimeSpan::from_millis(0), &still)
}

#[test]
fn retry_succeeds_on_first_retry() {
    let mut runner = TestAgentRunner::new(vec![
        Err(err_timeout("sess-abc")),
        Ok(ok_output("success after retry")),
    ]);
    let mut log = TestLoomLog::default();

    let result = execute(&mut runner, &mut log, 120);

    assert!(result.is_ok());
    assert_eq!(result.unwrap().stdout, "success after retry");

    let events = log.events();
    assert_eq!(events.len(), 1);
    match &events[0] {
        LoomEvent::SessionResumed {
            session_id, attempt, ..
        } => {
            assert_eq!(session_id, "sess-abc");
            assert_eq!(*attempt, 1);
        }
        _ => panic!("Expected SessionResumed, got {:?}", events[0]),
    }
}

#[test]
fn retry_exhausted_then_fails() {
    let responses: Vec<Result<AgentOutput, PortError>> = (0..20)
        .map(|_| Err(err_timeout("sess-abc")))
        .collect();
    let mut runner = TestAgentRunner::new(responses);
    let mut log = TestLoomLog::default();

    let result = execute(&mut runner, &mut log, 3600);

    assert!(result.is_err());

    let events = log.events();
    assert_eq!(events.len(), 10);
    match &events.last().unwrap() {
        LoomEvent::SessionResumed { attempt, .. } => {
            assert_eq!(*attempt, 10);
        }
        _ => panic!("Expected SessionResumed"),
    }
}

#[test]
fn retry_stops_on_overall_timeout() {
    let now = Cell::new(0u128);
    let clock = |pause: TimeSpan| {
        now.set(now.get() + pause.nanos);
        TimeSpan { nanos: now.get() }
    };

    let mut runner = TestAgentRunner::new(vec![
        Err(err_timeout("sess-abc")),
        Err(err_timeout("sess-abc")),
        Err(err_timeout("sess-abc")),
    ]);
    let mut log = TestLoomLog::default();
    let result = resume(
        &mut runner,
        &mut log,
        &mut None,
        Some(TimeSpan::from_secs(4)),
        TimeSpan::from_millis(0),
        &clock,
    );

    assert!(result.is_err());
    match result.unwrap_err() {
        PortError::Timeout { message, .. } => {
            assert!(
                message.contains("exhausted") || message.contains("budget"),
                "Expected budget exhaustion message, got: {}",
                message
            );
        }
        _ => panic!("Expected Timeout error"),
    }
    let events = log.events();
    assert!(
        events.is_empty(),
        "Expected no retries when budget < MIN_REMAINING_SECS"
    );
}

#[test]
fn retry_stops_on_insufficient_time() {
    let now = Cell::new(0u128);
    let clock = |pause: TimeSpan| {
        now.set(now.get() + pause.nanos);
        TimeSpan { nanos: now.get() }
    };
    let mut runner = TestAgentRunner::new(vec![
        Err(err_timeout("sess-abc")),
        Err(err_timeout("sess-abc")),
    ]);
    let mut log = TestLoomLog::default();
    let result = resume(
        &mut runner,
        &mut log,
        &mut None,
        Some(TimeSpan::from_secs(3)),
        TimeSpan::from_millis(0),
        &clock,
    );

    assert!(result.is_err());
    match result.unwrap_err() {
        PortError::Timeout { message, .. } => {
            assert!(
                message.contains("exhausted") || message.contains("budget"),
                "Expected budget exhaustion message, got: {}",
                message
            );
        }
        _ => panic!("Expected Timeout error"),
    }
}

#[test]
fn no_retry_on_fatal_error() {
    let mut runner = TestAgentRunner::new(vec![Err(err_fatal())]);
    let mut log = TestLoomLog::default();

    let result = execute(&mut runner, &mut log, 120);

    assert!(result.is_err());
    assert!(
        matches!(result.unwrap_err(), PortError::CommandNotFound(_)),
        "Expected CommandNotFound"
    );
    assert!(
        log.events().is_empty(),
        "Expected no loom-log events for fatal error"
    );
}

#[test]
fn no_retry_when_no_session_id() {
    let mut runner =
        TestAgentRunner::new(vec![Err(err_timeout_no_sid())]);
    let mut log = TestLoomLog::default();

    let result = execute(&mut runner, &mut log, 120);

    assert!(result.is_err());
    match result.unwrap_err() {
        PortError::Timeout { session_id, .. } => {
            assert!(session_id.is_none());
        }
        _ => panic!("Expected Timeout error"),
    }
    assert!(
        log.events().is_empty(),
        "Expected no loom-log events when no session_id"
    );
}

#[test]
fn retry_preserves_other_cli_args() {
    let mut runner = TestAgentRunner::new(vec![
        Err(err_timeout("sess-abc")),
        Ok(ok_output("success")),
    ]);
    let mut log = TestLoomLog::default();

    let result = execute(&mut runner, &mut log, 120);
    assert!(result.is_ok());

    let contexts = runner.contexts();
    assert!(contexts.len() >= 2);
    let retry_ctx = &contexts[1];
    let extra_args = &retry_ctx.agent_config.extra_args;
    assert!(extra_args.contains(&"--session-id".to_string()));
    assert!(extra_args.contains(&"sess-abc".to_string()));
}

#[test]
fn retry_appends_final_response_request() {
    let mut runner = TestAgentRunner::new(vec![
        Err(err_timeout("sess-abc")),
        Ok(ok_output("success")),
    ]);
    let mut log = TestLoomLog::default();

    let result = execute(&mut runner, &mut log, 120);
    assert!(result.is_ok());

    let contexts = runner.contexts();
    assert!(contexts.len() >= 2);
    assert_eq!(
        contexts[0].prompt,
        "Review this document"
    );
    assert!(
        contexts[1].prompt.contains(FINAL_RESPONSE_REQUEST),
        "Retry prompt should contain the final-response request, got: {}",
        contexts[1].prompt
    );
}

#[test]
fn retry_delay_between_attempts() {
    let now = Cell::new(0u128);
    let clock = |pause: TimeSpan| {
        now.set(now.get() + pause.nanos);
        TimeSpan { nanos: now.get() }
    };
    let mut runner = TestAgentRunner::new(vec![
        Err(err_timeout("sess-abc")),
        Ok(ok_output("success")),
    ]);
    let mut log = TestLoomLog::default();
    

    let result = resume(
        &mut runner,
        &mut log,
        &mut None,
        Some(TimeSpan::from_secs(120)),
        TimeSpan::from_millis(100),
        &clock,
    );

    assert!(result.is_ok());
    let elapsed = now.get();
    assert!(
        elapsed >= TimeSpan::from_millis(80).nanos,
        "Expected at least 80ms delay (configured 100ms), got {elapsed}ns"
    );
}

#[test]
fn session_id_captured_from_error() {
    let now = Cell::new(0u128);
    let clock = |pause: TimeSpan| {
        now.set(now.get() + pause.nanos);
        TimeSpan { nanos: now.get() }
    };
    let mut runner = TestAgentRunner::new(vec![
        Err(err_timeout("sess-captured")),
        Ok(ok_output_with_sid("success", "sess-captured")),
    ]);
    let mut log = TestLoomLog::default();

    let mut session_id: Option<String> = None;

    let result = resume(
        &mut runner,
        &mut log,
        &mut session_id,
        Some(TimeSpan::from_secs(120)),
        TimeSpan::from_millis(0),
        &clock,
    );

    assert!(result.is_ok());
    assert_eq!(session_id, Some("sess-captured".to_string()));
}

#[test]
fn successful_retry_transparent() {
    let mut runner = TestAgentRunner::new(vec![
        Err(err_timeout("sess-abc")),
        Ok(ok_output("success")),
    ]);
    let mut log = TestLoomLog::default();

    let result = execute(&mut runner, &mut log, 120);
    assert!(result.is_ok());

    let events = log.events();
    assert_eq!(events.len(), 1);
    assert!(
        matches!(&events[0], LoomEvent::SessionResumed { .. }),
        "Expected SessionResumed"
    );
}

#[test]
fn first_attempt_succeeds_no_retry() {
    let mut runner = TestAgentRunner::new(vec![Ok(ok_output("immediate"))]);
    let mut log = TestLoomLog::default();

    let result = execute(&mut runner, &mut log, 120);
    assert!(result.is_ok());
    assert_eq!(result.unwrap().stdout, "immediate");
    assert!(
        log.events().is_empty(),
        "Expected no loom-log events for immediate success"
    );
}
#[test]
fn empty_response_first_attempt_logs_knot_empty_response() {
    let mut runner = TestAgentRunner::new(vec![Ok(AgentOutput {
        stdout: String::new(),
        stderr: String::new(),
        exit_code: 0,
        metadata: None,
    })]);
    let mut log = TestLoomLog::default();

    let result = execute(&mut runner, &mut log, 120);
    assert!(result.is_err());
    match result.unwrap_err() {
        PortError::AgentNoResponse { message, session_id } => {
            assert!(
                message.contains("empty response"),
                "Expected empty response message, got: {}",
                message
            );
            assert!(
                session_id.is_none(),
                "no session ID → error carries no session_id, got: {:?}",
                session_id
            );
        }
        other => panic!("Expected AgentNoResponse error, got: {other:?}"),
    }
    let events = log.events();
    assert_eq!(events.len(), 1);
    match &events[0] {
        LoomEvent::KnotEmptyResponse { attempt, .. } => {
            assert_eq!(*attempt, 1);
        }
        _ => panic!("Expected KnotEmptyResponse"),
    }
}

#[test]
fn empty_response_retry_logs_knot_empty_response() {
    let mut runner = TestAgentRunner::new(vec![
        Err(err_timeout("sess-abc")),
        Ok(ok_output("")),
        Ok(ok_output("success after empty")),
    ]);
    let mut log = TestLoomLog::default();

    let result = execute(&mut runner, &mut log, 120);
    assert!(result.is_ok());
    assert_eq!(result.unwrap().stdout, "success after empty");
    let events = log.events();
    assert_eq!(events.len(), 3);
    match &events[0] {
        LoomEvent::SessionResumed { attempt, .. } => {
            assert_eq!(*attempt, 1);
        }
        _ => panic!("Expected SessionResumed, got {:?}", events[0]),
    }
    match &events[1] {
        LoomEvent::KnotEmptyResponse { attempt, .. } => {
            assert_eq!(*attempt, 2);
        }
        _ => panic!("Expected KnotEmptyResponse, got {:?}", events[1]),
    }
    match &events[2] {
        LoomEvent::SessionResumed { attempt, .. } => {
            assert_eq!(*attempt, 2);
        }
        _ => panic!("Expected SessionResumed, got {:?}", events[2]),
    }
}
#[test]
fn empty_response_first_attempt_triggers_retry() {
    let mut runner = TestAgentRunner::new(vec![
        Ok(ok_output_with_sid("", "sess-abc")),
        Ok(ok_output_with_sid("final response", "sess-abc")),
    ]);
    let mut log = TestLoomLog::default();

    let result = execute(&mut runner, &mut log, 120);

    assert!(
        result.is_ok(),
        "expected Ok after the final-response nudge, got: {:?}",
        result.err()
    );
    assert_eq!(result.unwrap().stdout, "final response");
    assert_eq!(runner.call_count(), 2);
    let contexts = runner.contexts();
    assert_eq!(contexts.len(), 2);
    let retry_ctx = &contexts[1];
    assert!(
        retry_ctx
            .agent_config
            .extra_args
            .contains(&"--session-id".to_string()),
        "retry extra_args should contain --session-id: {:?}",
        retry_ctx.agent_config.extra_args
    );
    assert!(
        retry_ctx
            .agent_config
            .extra_args
            .contains(&"sess-abc".to_string()),
        "retry extra_args should contain the session ID: {:?}",
        retry_ctx.agent_config.extra_args
    );
    assert!(
        retry_ctx.prompt.contains(
            "Please produce your final response, or continue if you have not finished."
        ),
        "retry prompt should contain the final-response request, got: {}",
        retry_ctx.prompt
    );
    let events = log.events();
    assert_eq!(events.len(), 2);
    match &events[0] {
        LoomEvent::KnotEmptyResponse { attempt, .. } => {
            assert_eq!(*attempt, 1);
        }
        other => panic!("Expected KnotEmptyResponse, got {other:?}"),
    }
    match &events[1] {
        LoomEvent::SessionResumed { attempt, session_id, .. } => {
            assert_eq!(*attempt, 1);
            assert_eq!(session_id, "sess-abc");
        }
        other => panic!("Expected SessionResumed, got {other:?}"),
    }
}
#[test]
fn empty_response_without_session_id_no_retry() {
    let mut runner = TestAgentRunner::new(vec![Ok(AgentOutput {
        stdout: String::new(),
        stderr: String::new(),
        exit_code: 0,
        metadata: None,
    })]);
    let mut log = TestLoomLog::default();

    let result = execute(&mut runner, &mut log, 120);

    assert!(result.is_err());
    match result.unwrap_err() {
        PortError::AgentNoResponse { session_id, .. } => {
            assert!(
                session_id.is_none(),
                "error should carry no session_id, got: {:?}",
                session_id
            );
        }
        other => panic!("Expected AgentNoResponse, got: {other:?}"),
    }
    assert_eq!(runner.call_count(), 1);
    let events = log.events();
    assert_eq!(events.len(), 1);
    match &events[0] {
        LoomEvent::KnotEmptyResponse { attempt, .. } => {
            assert_eq!(*attempt, 1);
        }
        other => panic!("Expected KnotEmptyResponse, got {other:?}"),
    }
    assert!(
        !events
            .iter()
            .any(|e| matches!(e, LoomEvent::SessionResumed { .. })),
        "no SessionResumed without a session ID"
    );
}
#[test]
fn empty_response_exhausted_returns_no_response_error() {
    let responses: Vec<Result<AgentOutput, PortError>> = (0..11)
        .map(|_| Ok(ok_output_with_sid("", "sess-abc")))
        .collect();
    let mut runner = TestAgentRunner::new(responses);
    let mut log = TestLoomLog::default();

    let result = execute_no_budget(&mut runner, &mut log);

    assert!(result.is_err());
    match result.unwrap_err() {
        PortError::AgentNoResponse { message, .. } => {
            assert!(
                message.contains("after 11 attempts"),
                "message should count all attempts (1 + 10 retries), got: {message}"
            );
            assert!(
                message.contains("exhausted"),
                "message should mention exhaustion, got: {message}"
            );
        }
        other => panic!("Expected AgentNoResponse, got: {other:?}"),
    }
    assert_eq!(runner.call_count(), 11);
    let events = log.events();
    let empty_count = events
        .iter()
        .filter(|e| matches!(e, LoomEvent::KnotEmptyResponse { .. }))
        .count();
    let resumed_count = events
        .iter()
        .filter(|e| matches!(e, LoomEvent::SessionResumed { .. }))
        .count();
    assert_eq!(empty_count, 11, "expected 11 KnotEmptyResponse events");
    assert_eq!(resumed_count, 10, "expected 10 SessionResumed events");
}
#[test]
fn empty_response_retry_timeout_terminal_is_timeout() {
    let responses: Vec<Result<AgentOutput, PortError>> = std::iter::once(Ok(
        ok_output_with_sid("", "sess-abc"),
    ))
    .chain((0..10).map(|_| Err(err_timeout("sess-abc"))))
    .collect();
    let mut runner = TestAgentRunner::new(responses);
    let mut log = TestLoomLog::default();

    let result = execute_no_budget(&mut runner, &mut log);

    assert!(result.is_err());
    match result.unwrap_err() {
        PortError::Timeout { message, .. } => {
            assert!(
                message.contains("exhausted"),
                "message should mention exhaustion, got: {message}"
            );
        }
        other => panic!(
            "Expected Timeout (last failure was a real timeout), got: {other:?}"
        ),
    }
    let events = log.events();
    let empty_count = events
        .iter()
        .filter(|e| matches!(e, LoomEvent::KnotEmptyResponse { .. }))
        .count();
    let resumed_count = events
        .iter()
        .filter(|e| matches!(e, LoomEvent::SessionResumed { .. }))
        .count();
    assert_eq!(empty_count, 1, "expected 1 KnotEmptyResponse (first attempt only)");
    assert_eq!(resumed_count, 10, "expected 10 SessionResumed events");
}
#[test]
fn compaction_logged_on_first_attempt() {
    let mut runner = TestAgentRunner::new(vec![Ok(ok_output_with_compactions(
        "done",
        "sess-abc",
        vec![comp_rec("overflow", Some(150000), true, None)],
    ))]);
    let mut log = TestLoomLog::default();

    let result = execute(&mut runner, &mut log, 120);
    assert!(
        result.is_ok(),
        "first-attempt success: {:?}",
        result.err()
    );
    assert_eq!(result.unwrap().stdout, "done");

    let events = log.events();
    assert_eq!(events.len(), 1, "exactly one loom-log event");
    match &events[0] {
        LoomEvent::ContextCompacted {
            reason,
            tokens_before,
            attempt,
            ..
        } => {
            assert_eq!(reason, "overflow");
            assert_eq!(*tokens_before, Some(150000));
            assert_eq!(*attempt, 1);
        }
        other => panic!("Expected ContextCompacted, got {other:?}"),
    }
    assert!(
        !events
            .iter()
            .any(|e| matches!(e, LoomEvent::SessionResumed { .. })),
        "no SessionResumed on a successful first attempt"
    );
}
#[test]
fn compaction_logged_on_retry_attempt() {
    let mut runner = TestAgentRunner::new(vec![
        Err(err_timeout("sess-abc")),
        Ok(ok_output_with_compactions(
            "done",
            "sess-abc",
            vec![comp_rec("threshold", Some(90000), true, None)],
        )),
    ]);
    let mut log = TestLoomLog::default();

    let result = execute(&mut runner, &mut log, 120);
    assert!(
        result.is_ok(),
        "retry success: {:?}",
        result.err()
    );

    let events = log.events();
    assert_eq!(events.len(), 2);
    match &events[0] {
        LoomEvent::SessionResumed { attempt, .. } => {
            assert_eq!(*attempt, 1);
        }
        other => panic!("Expected SessionResumed, got {other:?}"),
    }
    match &events[1] {
        LoomEvent::ContextCompacted { reason, attempt, .. } => {
            assert_eq!(reason, "threshold");
            assert_eq!(
                *attempt, 2,
                "attempt follows the KnotEmptyResponse convention"
            );
        }
        other => panic!("Expected ContextCompacted, got {other:?}"),
    }
}
#[test]
fn failed_compaction_not_logged() {
    let mut runner = TestAgentRunner::new(vec![Ok(ok_output_with_compactions(
        "done",
        "sess-abc",
        vec![comp_rec(
            "overflow",
            None,
            false,
            Some("Context overflow recovery failed after one compact-and-retry attempt."),
        )],
    ))]);
    let mut log = TestLoomLog::default();

    let result = execute(&mut runner, &mut log, 120);
    assert!(
        result.is_ok(),
        "non-empty stdout is a success: {:?}",
        result.err()
    );

    assert!(
        log.events().is_empty(),
        "failed compactions are not logged, got: {:?}",
        log.events()
    );
}
#[test]
fn terminal_overflow_first_attempt_no_retry() {
    let mut runner =
        TestAgentRunner::new(vec![Err(err_context_limit("sess-ctx"))]);
    let mut log = TestLoomLog::default();

    let result = execute(&mut runner, &mut log, 120);

    assert!(result.is_err());
    match result.unwrap_err() {
        PortError::ContextLimitReached { .. } => {}
        other => panic!("Expected ContextLimitReached, got: {other:?}"),
    }
    assert_eq!(
        runner.call_count(),
        1,
        "no retry for a non-resumable error"
    );
    assert!(
        log.events().is_empty(),
        "no loom-log events for a first-attempt terminal overflow, got: {:?}",
        log.events()
    );
}
#[test]
fn terminal_overflow_in_loop_exits() {
    let mut runner = TestAgentRunner::new(vec![
        Err(err_timeout("sess-abc")),
        Err(err_context_limit("sess-abc")),
    ]);
    let mut log = TestLoomLog::default();

    let result = execute(&mut runner, &mut log, 120);

    assert!(result.is_err());
    match result.unwrap_err() {
        PortError::ContextLimitReached { .. } => {}
        other => panic!("Expected ContextLimitReached, got: {other:?}"),
    }
    assert_eq!(
        runner.call_count(),
        2,
        "exits on the terminal error — no further retries"
    );

    let events = log.events();
    assert_eq!(events.len(), 1);
    match &events[0] {
        LoomEvent::SessionResumed { attempt, .. } => {
            assert_eq!(*attempt, 1);
        }
        other => panic!("Expected SessionResumed, got {other:?}"),
    }
}

#[test]
fn inject_event_request_success_with_events() {
    let response = ["```markdown\n",
        "---\n",
        "event: PlanCreated\n",
        "---\n",
        "Plan created.\n",
        "```"]
    .concat();
    let mut runner = TestAgentRunner::new(vec![Ok(ok_output(&response))]);
    let mut log = TestLoomLog::default();

    let result = inject_event_request(
        &mut runner,
        &log,
        &make_loom_id(),
        &make_knot_id(),
        &make_strand_path(),
        &Some("sess-abc".to_string()),
        config(),
        "## Agent Events\n\nYou may emit: PlanCreated".to_string(),
        "Created".to_string(),
        Some("k1".to_string()),
        None,
    );

    assert!(result.is_ok());
    let stdout = result.unwrap();
    assert!(stdout.contains("PlanCreated"));
}

#[test]
fn inject_event_request_no_session_id_returns_err() {
    let mut runner = TestAgentRunner::new(vec![]);
    let mut log = TestLoomLog::default();

    let result = inject_event_request(
        &mut runner,
        &log,
        &make_loom_id(),
        &make_knot_id(),
        &make_strand_path(),
        &None,
        config(),
        "listener context".to_string(),
        "Created".to_string(),
        Some("k1".to_string()),
        None,
    );

    assert!(result.is_err());
}

#[test]
fn inject_event_request_runner_error_propagates() {
    let mut runner = TestAgentRunner::new(vec![Err(err_fatal())]);
    let mut log = TestLoomLog::default();

    let result = inject_event_request(
        &mut runner,
        &log,
        &make_loom_id(),
        &make_knot_id(),
        &make_strand_path(),
        &Some("sess-abc".to_string()),
        config(),
        "listener context".to_string(),
        "Created".to_string(),
        Some("k1".to_string()),
        None,
    );

    assert!(result.is_err());
}

#[test]
fn inject_event_request_repeats_listener_context() {
    let listener = ["## Agent Events\n",
        "\n",
        "Events you may emit:\n",
        "- `PhaseReady` — phase complete, next phase ready\n",
        "- `ImplementationNote` — implementation discovery"]
    .concat();

    let mut runner = TestAgentRunner::new(vec![Ok(ok_output("response"))]);
    let mut log = TestLoomLog::default();

    let _result = inject_event_request(
        &mut runner,
        &log,
        &make_loom_id(),
        &make_knot_id(),
        &make_strand_path(),
        &Some("sess-abc".to_string()),
        config(),
        listener,
        "Modified".to_string(),
        Some("k1".to_string()),
        None,
    );

    let contexts = runner.contexts();
    let prompt = &contexts[0].prompt;
    assert!(
        prompt.contains("Your previous response did not contain any agent event blocks"),
        "prompt should have preamble"
    );
    assert!(
        prompt.contains("## Agent Events"),
        "prompt should include listener context"
    );
    assert!(
        prompt.contains("`PhaseReady`"),
        "prompt should list PhaseReady from listener context"
    );
    assert!(
        prompt.contains("`ImplementationNote`"),
        "prompt should list ImplementationNote from listener context"
    );
}

#[test]
fn inject_event_request_does_not_resend_profile_prompt() {
    let mut runner = TestAgentRunner::new(vec![Ok(ok_output("response"))]);
    let mut log = TestLoomLog::default();

    let _result = inject_event_request(
        &mut runner,
        &log,
        &make_loom_id(),
        &make_knot_id(),
        &make_strand_path(),
        &Some("sess-abc".to_string()),
        config(),
        "listener context".to_string(),
        "Modified".to_string(),
        Some("k1".to_string()),
        None,
    );

    let contexts = runner.contexts();
    assert!(
        contexts[0].profile_prompt.is_empty(),
        "profile prompt should be empty (not resent): {}",
        contexts[0].profile_prompt
    );
}

#[test]
fn inject_event_request_uses_session_id_from_first_invocation() {
    let mut runner = TestAgentRunner::new(vec![Ok(ok_output("response"))]);
    let mut log = TestLoomLog::default();

    let _result = inject_event_request(
        &mut runner,
        &log,
        &make_loom_id(),
        &make_knot_id(),
        &make_strand_path(),
        &Some("sess-abc".to_string()),
        config(),
        "listener context".to_string(),
        "Created".to_string(),
        Some("k1".to_string()),
        None,
    );

    let contexts = runner.contexts();
    assert_eq!(contexts.len(), 1);
    let extra_args = &contexts[0].agent_config.extra_args;
    assert!(
        extra_args.contains(&"--session-id".to_string()),
        "extra_args should contain --session-id: {:?}",
        extra_args
    );
    assert!(
        extra_args.contains(&"sess-abc".to_string()),
        "extra_args should contain session ID: {:?}",
        extra_args
    );
}
fn err_inactivity(sid: Option<&str>) -> PortError {
    PortError::AgentInactivity {
        message: "no output for 300s (inactivity window 300s) (mock)"
            .to_string(),
        silent_secs: 300,
        window_secs: 300,
        blocked_call: None,
        session_id: sid.map(str::to_string),
    }
}
#[test]
fn inactivity_retry_reenters_session_with_note() {
    let mut runner = TestAgentRunner::new(vec![
        Err(err_inactivity(Some("sess-inact"))),
        Ok(ok_output("done")),
    ]);
    let mut log = TestLoomLog::default();

    let result = execute_no_budget(&mut runner, &mut log);
    assert!(
        result.is_ok(),
        "should succeed on the retry: {:?}",
        result.err()
    );
    assert_eq!(runner.call_count(), 2);

    let contexts = runner.contexts();
    assert_eq!(contexts.len(), 2);
    let extra_args = &contexts[1].agent_config.extra_args;
    assert!(
        extra_args.contains(&"--session-id".to_string()),
        "retry should carry --session-id: {extra_args:?}"
    );
    assert!(
        extra_args.contains(&"sess-inact".to_string()),
        "retry should carry the session ID: {extra_args:?}"
    );
    let prompt = &contexts[1].prompt;
    assert!(
        prompt.contains("blocked for more than 300 seconds"),
        "retry prompt should carry the inactivity note: {prompt}"
    );
    assert!(
        prompt.contains("5-minute window"),
        "retry prompt should name the window in minutes: {prompt}"
    );
    assert!(
        !prompt.contains(FINAL_RESPONSE_REQUEST),
        "inactivity retry must not carry the bare request: {prompt}"
    );
    let events = log.events();
    let inactivity_attempt = events
        .iter()
        .find_map(|e| {
            if let LoomEvent::AgentInactivity { attempt, .. } = e {
                Some(*attempt)
            } else {
                None
            }
        });
    assert_eq!(
        inactivity_attempt,
        Some(1),
        "expected AgentInactivity {{ attempt: 1 }}, got: {events:?}"
    );
    assert!(
        events
            .iter()
            .any(|e| matches!(e, LoomEvent::SessionResumed { attempt: 1, .. })),
        "expected SessionResumed {{ attempt: 1 }}: {events:?}"
    );
}
#[test]
fn inactivity_retry_fresh_without_session() {
    let mut runner = TestAgentRunner::new(vec![
        Err(err_inactivity(None)),
        Ok(ok_output("done")),
    ]);
    let mut log = TestLoomLog::default();

    let result = execute_no_budget(&mut runner, &mut log);
    assert!(
        result.is_ok(),
        "should succeed on the fresh retry: {:?}",
        result.err()
    );
    assert_eq!(runner.call_count(), 2);

    let contexts = runner.contexts();
    assert_eq!(contexts.len(), 2);

    let extra_args = &contexts[1].agent_config.extra_args;
    assert!(
        !extra_args.contains(&"--session-id".to_string()),
        "fresh restart must not pass --session-id: {extra_args:?}"
    );
    assert!(
        contexts[1].prompt.contains("blocked for more than 300 seconds"),
        "retry prompt should carry the inactivity note: {}",
        contexts[1].prompt
    );
}
#[test]
fn inactivity_note_replaces_final_response_request() {
    let mut runner = TestAgentRunner::new(vec![
        Err(err_timeout("sess-abc")),
        Ok(ok_output("done")),
    ]);
    let mut log = TestLoomLog::default();

    let result = execute_no_budget(&mut runner, &mut log);
    assert!(
        result.is_ok(),
        "should succeed on the retry: {:?}",
        result.err()
    );

    let contexts = runner.contexts();
    assert_eq!(contexts.len(), 2);
    let prompt = &contexts[1].prompt;
    assert!(
        prompt.contains(FINAL_RESPONSE_REQUEST),
        "timeout retry should still carry the final-response request: {prompt}"
    );
    assert!(
        !prompt.contains("blocked for more than"),
        "timeout retry must not carry the inactivity note: {prompt}"
    );
}
#[test]
fn inactivity_exhausted_terminal() {
    let responses: Vec<Result<AgentOutput, PortError>> = (0..11)
        .map(|_| Err(err_inactivity(Some("sess-inact"))))
        .collect();
    let mut runner = TestAgentRunner::new(responses);
    let mut log = TestLoomLog::default();

    let result = execute_no_budget(&mut runner, &mut log);

    assert!(result.is_err());
    match result.unwrap_err() {
        PortError::AgentInactivity { message, .. } => {
            assert!(
                message.contains("exhausted"),
                "message should mention exhaustion: {message}"
            );
        }
        other => panic!("expected terminal AgentInactivity, got: {other:?}"),
    }
    assert_eq!(runner.call_count(), 11);
    let events = log.events();
    let inactivity_count = events
        .iter()
        .filter(|e| matches!(e, LoomEvent::AgentInactivity { .. }))
        .count();
    let resumed_count = events
        .iter()
        .filter(|e| matches!(e, LoomEvent::SessionResumed { .. }))
        .count();
    assert_eq!(
        inactivity_count, 11,
        "expected 11 AgentInactivity events, got: {events:?}"
    );
    assert_eq!(
        resumed_count, 10,
        "expected 10 SessionResumed events, got: {events:?}"
    );
}

// ── Budgets ─────────────────────────────────────────────────────────

/// A clock on which every look takes a second and a half, besides the waits.
#[test]
fn budget_runs_out_between_retries() {
    let now = Cell::new(7_000_000_000u128);
    let clock = |pause: TimeSpan| {
        let t = now.get() + pause.nanos;
        now.set(t + 1_500_000_000);
        TimeSpan { nanos: t }
    };
    let mut runner = TestAgentRunner::new(vec![
        Err(err_timeout("sess-abc")),
        Err(err_timeout("sess-abc")),
    ]);
    let mut log = TestLoomLog::default();
    let result = resume(
        &mut runner,
        &mut log,
        &mut None,
        Some(TimeSpan::from_secs(9)),
        TimeSpan::from_millis(0),
        &clock,
    );

    assert_eq!(
        result.unwrap_err(),
        PortError::Timeout {
            message: "overall timeout budget exhausted after 1 attempt(s) (6s used of 9s budget)"
                .to_string(),
            session_id: Some("sess-abc".to_string()),
        }
    );
    assert_eq!(runner.call_count(), 2);
    let timeouts: Vec<_> = runner.contexts().iter().map(|c| c.timeout).collect();
    assert_eq!(
        timeouts,
        vec![Some(TimeSpan::from_secs(9)), Some(TimeSpan::from_millis(4500))]
    );
}

#[test]
fn waiting_can_use_the_budget_up() {
    let now = Cell::new(0u128);
    let clock = |pause: TimeSpan| {
        now.set(now.get() + pause.nanos);
        TimeSpan { nanos: now.get() }
    };
    let mut runner = TestAgentRunner::new(vec![Err(err_timeout("sess-abc"))]);
    let mut log = TestLoomLog::default();
    let result = resume(
        &mut runner,
        &mut log,
        &mut None,
        Some(TimeSpan::from_secs(10)),
        TimeSpan::from_secs(10),
        &clock,
    );

    assert_eq!(
        result.unwrap_err().display(),
        "timeout: overall timeout budget exhausted after 1 attempt(s) (10s used of 10s budget)"
    );
    assert_eq!(runner.call_count(), 1);
    assert!(log.events().is_empty());
}

#[test]
fn attempts_are_capped_below_a_large_budget() {
    let mut runner = TestAgentRunner::new(vec![
        Err(err_timeout("sess-abc")),
        Ok(ok_output("done")),
    ]);
    let mut log = TestLoomLog::default();
    assert!(execute(&mut runner, &mut log, 3600).is_ok());
    for context in runner.contexts() {
        assert_eq!(context.timeout, Some(TimeSpan::from_secs(30)));
    }
}

#[test]
fn exhaustion_names_the_cause() {
    let mut runner = TestAgentRunner::new((0..11).map(|_| Err(err_timeout("s"))).collect());
    let mut log = TestLoomLog::default();
    assert_eq!(
        execute(&mut runner, &mut log, 3600).unwrap_err(),
        PortError::Timeout {
            message: "session resume exhausted 10 retries (overall timeout: 3600s)".to_string(),
            session_id: Some("s".to_string()),
        }
    );

    let mut runner = TestAgentRunner::new((0..11).map(|_| Err(err_inactivity(None))).collect());
    let mut log = TestLoomLog::default();
    assert_eq!(
        execute_no_budget(&mut runner, &mut log).unwrap_err(),
        PortError::AgentInactivity {
            message: "session resume exhausted 10 retries after 11 inactivity kills".to_string(),
            silent_secs: 300,
            window_secs: 300,
            blocked_call: None,
            session_id: None,
        }
    );
}

// ── Logs that refuse ────────────────────────────────────────────────

#[test]
fn a_log_that_refuses_stops_the_retry() {
    let mut runner = TestAgentRunner::new(vec![Err(err_timeout("sess-abc"))]);
    let mut log = TestLoomLog { full_after: Some(0), ..TestLoomLog::default() };
    let mut session_id = None;
    let result = resume(
        &mut runner,
        &mut log,
        &mut session_id,
        None,
        TimeSpan::from_millis(0),
        &still,
    );
    assert_eq!(result.unwrap_err(), PortError::LoomLogAppendFailed("full".to_string()));
    assert_eq!(runner.call_count(), 1);
    assert_eq!(session_id, Some("sess-abc".to_string()));
}

#[test]
fn a_log_that_refuses_a_compaction_fails_no_run() {
    let mut runner = TestAgentRunner::new(vec![Ok(ok_output_with_compactions(
        "done",
        "sess-abc",
        vec![
            comp_rec("overflow", Some(1), true, None),
            CompactionRecord { aborted: true, ..comp_rec("threshold", None, false, None) },
        ],
    ))]);
    let mut log = TestLoomLog { full_after: Some(0), ..TestLoomLog::default() };
    assert_eq!(execute_no_budget(&mut runner, &mut log).unwrap().stdout, "done");
    assert!(log.events().is_empty());
}

#[test]
fn an_aborted_compaction_is_not_logged() {
    let aborted = CompactionRecord { aborted: true, ..comp_rec("overflow", None, false, None) };
    let mut runner = TestAgentRunner::new(vec![Ok(ok_output_with_compactions(
        "done",
        "sess-abc",
        vec![aborted, comp_rec("manual", Some(2), false, None)],
    ))]);
    let mut log = TestLoomLog::default();
    assert!(execute_no_budget(&mut runner, &mut log).is_ok());
    assert_eq!(log.events().len(), 1);
    assert!(matches!(&log.events()[0], LoomEvent::ContextCompacted { reason, .. } if reason == "manual"));
}

// ── Prompts, notes and delays ───────────────────────────────────────

#[test]
fn retry_prompts_start_from_the_run_s_prompt() {
    let mut runner = TestAgentRunner::new(vec![
        Err(err_timeout("s1")),
        Err(PortError::AgentInactivity {
            message: "stopped".to_string(),
            silent_secs: 42,
            window_secs: 600,
            blocked_call: None,
            session_id: Some("s2".to_string()),
        }),
        Ok(ok_output_with_sid("", "s2")),
        Ok(ok_output("done")),
    ]);
    let mut log = TestLoomLog::default();
    assert!(execute_no_budget(&mut runner, &mut log).is_ok());
    let prompts: Vec<String> = runner.contexts().iter().map(|c| c.prompt.clone()).collect();
    assert_eq!(
        prompts,
        vec![
            "Review this document".to_string(),
            format!("Review this document\n\n{FINAL_RESPONSE_REQUEST}"),
            format!("Review this document\n\n{}", inactivity_restart_note(42, 600)),
            format!("Review this document\n\n{FINAL_RESPONSE_REQUEST}"),
        ]
    );
    let args: Vec<Vec<String>> =
        runner.contexts().iter().map(|c| c.agent_config.extra_args.clone()).collect();
    assert_eq!(
        args,
        vec![
            vec![],
            vec!["--session-id", "s1"],
            vec!["--session-id", "s1", "--session-id", "s2"],
            vec!["--session-id", "s1", "--session-id", "s2", "--session-id", "s2"],
        ]
    );
}

#[test]
fn white_space_is_no_response() {
    let mut runner = TestAgentRunner::new(vec![
        Ok(ok_output(" \n\t\u{a0}\u{3000}")),
        Ok(ok_output("\u{200b}")),
    ]);
    let mut log = TestLoomLog::default();
    assert_eq!(execute_no_budget(&mut runner, &mut log).unwrap().stdout, "\u{200b}");
    assert_eq!(runner.call_count(), 2);
}

#[test]
fn inactivity_note_names_the_window() {
    let note = inactivity_restart_note(42, 90);
    assert!(note.starts_with("Your last call blocked for more than 42 seconds with no output, so"));
    assert!(note.contains("at least once within the 90-second window (e.g. run it"));
    assert!(note.ends_with("produce your final response when done."));
    assert!(inactivity_restart_note(1, 0).contains("the 0-minute window ("));
}

#[test]
fn the_delay_can_be_set() {
    assert_eq!(retry_delay(None), TimeSpan::from_secs(10));
    assert_eq!(retry_delay(Some(25)), TimeSpan::from_millis(25));

    let waited = Cell::new(0u128);
    let clock = |pause: TimeSpan| {
        waited.set(waited.get() + pause.nanos);
        TimeSpan { nanos: 0 }
    };
    let mut runner = TestAgentRunner::new(vec![
        Err(err_timeout("sess-abc")),
        Ok(ok_output("done")),
    ]);
    let mut log = TestLoomLog::default();
    let result = execute_with_resume(
        &mut runner,
        &mut log,
        &make_loom_id(),
        &make_knot_id(),
        &make_strand_path(),
        &mut None,
        config(),
        "Review this document".to_string(),
        None,
        String::new(),
        "Deleted".to_string(),
        None,
        None,
        None,
        &mut Outside::new(|pause: &TimeSpan| clock(*pause)),
        &mut Trace::new(),
    );
    assert!(result.is_ok());
    assert_eq!(waited.get(), TimeSpan::from_secs(10).nanos);
}

#[test]
fn event_request_is_exact() {
    let mut runner = TestAgentRunner::new(vec![Ok(ok_output("response"))]);
    let log = TestLoomLog::default();
    let result = inject_event_request(
        &mut runner,
        &log,
        &make_loom_id(),
        &make_knot_id(),
        &make_strand_path(),
        &Some("sess-abc".to_string()),
        config(),
        "listener context".to_string(),
        "Created".to_string(),
        Some("k1".to_string()),
        Some(TimeSpan::from_secs(600)),
    );
    assert_eq!(result.unwrap(), "response");
    let context = &runner.contexts()[0];
    assert_eq!(
        context.prompt,
        "Your previous response did not contain any agent event blocks.\n\nPlease emit events as instructed below:\n\nlistener context"
    );
    assert_eq!(context.timeout, Some(TimeSpan::from_secs(600)));
}

#[test]
fn a_runner_without_a_stream_leaves_the_observer_alone() {
    let mut runner = TestAgentRunner::new(vec![Ok(ok_output("done"))]);
    let seen = Cell::new(0u32);
    let result = runner.execute_with_config_and_observer(
        &config(),
        make_strand_path(),
        None,
        "Review this document".to_string(),
        String::new(),
        "Created".to_string(),
        None,
        None,
        Some(|_: &CompactionObservation| seen.set(seen.get() + 1)),
    );
    assert_eq!(result.unwrap().stdout, "done");
    assert_eq!(runner.contexts()[0].prompt, "Review this document");
    assert_eq!(seen.get(), 0);
}
