//! Agent invocations as child processes. The processes are played: each is a
//! function from what is started to how it ends.

use knot::entities::{AgentConfig, StrandPath};
use knot::errors::PortError;
use knot::outside::Outside;
use knot::subprocess::{
    build_session_args, build_session_title, conclude_exit, CommandContext, ProcessEnd,
    ProcessRequest, SubprocessAgentRunner,
};
use knot::time::TimeSpan;
use std::cell::Cell;

fn make_context(cli: &str, args: &[&str]) -> CommandContext {
    CommandContext {
        cli_path: cli.to_string(),
        cli_args: args.iter().map(|s| s.to_string()).collect(),
        prompt: "test prompt".to_string(),
        strand_path: StrandPath("test.md".to_string()),
        event_type: String::new(),
        previous_tie_off: String::new(),
        timeout: None,
    }
}

fn exited(code: i32, stdout: &str, stderr: &str) -> ProcessEnd {
    ProcessEnd::Ended {
        code: Some(code),
        stdout: stdout.as_bytes().to_vec(),
        stderr: stderr.as_bytes().to_vec(),
    }
}

/// Plays the commands that the tests start.
fn play(request: &ProcessRequest) -> ProcessEnd {
    let args: Vec<&str> = request.cli_args.iter().map(|a| a.as_str()).collect();
    match (request.cli_path.as_str(), args.as_slice()) {
        ("sh", ["-c", "echo hello"]) => exited(0, "hello\n", ""),
        ("sh", ["-c", "echo ok"]) => exited(0, "ok\n", ""),
        ("sh", ["-c", "cat"]) => exited(0, &request.stdin, ""),
        ("sh", ["-c", "cat >/dev/null; echo err >&2"]) => exited(0, "", "err\n"),
        ("sh", ["-c", "cat >/dev/null; exit 1"]) => exited(1, "", ""),
        ("echo", [word]) => exited(0, &format!("{word}\n"), ""),
        ("cat", []) => exited(0, &request.stdin, ""),
        ("sleep", ["30"]) => {
            if request.timeout.nanos < 30_000_000_000 {
                ProcessEnd::Ended { code: None, stdout: vec![], stderr: vec![] }
            } else {
                exited(0, "", "")
            }
        }
        _ => ProcessEnd::NotFound("No such file or directory (os error 2)".to_string()),
    }
}

#[test]
fn execute_successful_command() {
    let runner = SubprocessAgentRunner::new();
    let ctx = make_context("sh", &["-c", "echo hello"]);

    let result = runner.execute(ctx, &mut Outside::new(play));
    assert!(result.is_ok(), "should succeed: {result:?}");

    let output = result.unwrap();
    assert_eq!(output.exit_code, 0);
    assert!(output.stdout.contains("hello"));
}

#[test]
fn execute_captures_stdout() {
    let runner = SubprocessAgentRunner::new();
    let ctx = make_context("echo", &["test"]);

    let result = runner.execute(ctx, &mut Outside::new(play));
    assert!(result.is_ok(), "should succeed: {result:?}");

    let output = result.unwrap();
    assert_eq!(output.stdout, "test\n");
}

#[test]
fn execute_captures_stderr() {
    let runner = SubprocessAgentRunner::new();
    let ctx = make_context("sh", &["-c", "cat >/dev/null; echo err >&2"]);

    let result = runner.execute(ctx, &mut Outside::new(play));
    assert!(result.is_ok(), "should succeed: {result:?}");

    let output = result.unwrap();
    assert!(output.stderr.contains("err"));
    assert!(output.stdout.is_empty());
}

#[test]
fn execute_command_not_found() {
    let runner = SubprocessAgentRunner::new();
    let ctx = make_context("/nonexistent/path/does/not/exist", &[]);

    let result = runner.execute(ctx, &mut Outside::new(play));
    assert!(result.is_err(), "should error for missing binary");

    let err = result.unwrap_err();
    assert!(
        matches!(err, PortError::CommandNotFound(_)),
        "expected CommandNotFound, got {err:?}"
    );
    assert_eq!(
        err,
        PortError::CommandNotFound(
            "'/nonexistent/path/does/not/exist': No such file or directory (os error 2)".to_string()
        )
    );
}

#[test]
fn execute_nonzero_exit_error() {
    let runner = SubprocessAgentRunner::new();
    let ctx = make_context("sh", &["-c", "cat >/dev/null; exit 1"]);

    let result = runner.execute(ctx, &mut Outside::new(play));
    assert!(result.is_err(), "should error for non-zero exit");

    let err = result.unwrap_err();
    assert!(
        matches!(err, PortError::AgentExecutionFailed { .. }),
        "expected AgentExecutionFailed, got {err:?}"
    );
    assert!(err.display().contains("exited with code 1"));
}

#[test]
fn execute_timeout() {
    let runner = SubprocessAgentRunner::with_timeout(TimeSpan::from_millis(100));
    let ctx = make_context("sleep", &["30"]);

    let result = runner.execute(ctx, &mut Outside::new(play));
    assert!(result.is_err(), "should error for timeout");

    let err = result.unwrap_err();
    assert!(matches!(err, PortError::Timeout { .. }), "expected Timeout, got {err:?}");
    assert_eq!(
        err,
        PortError::Timeout {
            message: "'sleep' exceeded timeout of 100ms (strand: test.md)".to_string(),
            session_id: None,
        }
    );
}

#[test]
fn runner_passes_prompt_via_stdin() {
    let runner = SubprocessAgentRunner::new();
    let prompt = "hello from knot\n";
    let mut ctx = make_context("sh", &["-c", "cat"]);
    ctx.prompt = prompt.to_string();

    let result = runner.execute(ctx, &mut Outside::new(play));
    assert!(result.is_ok(), "should succeed: {result:?}");

    let output = result.unwrap();
    assert_eq!(output.stdout, prompt, "stdout should contain prompt");
}

#[test]
fn runner_passes_strand_via_at_syntax() {
    let runner = SubprocessAgentRunner::new();
    let prompt = "strand content from file";
    let mut ctx = make_context("cat", &[]);
    ctx.prompt = prompt.to_string();
    ctx.strand_path = StrandPath("strand.md".to_string());

    let result = runner.execute(ctx, &mut Outside::new(play));
    assert!(result.is_ok(), "should succeed: {result:?}");

    let output = result.unwrap();
    assert_eq!(output.stdout, prompt, "cat should echo stdin content exactly");
}

#[test]
fn runner_passes_event_metadata() {
    let runner = SubprocessAgentRunner::new();
    let ctx = CommandContext {
        cli_path: "cat".to_string(),
        cli_args: vec![],
        prompt: "Review this file.".to_string(),
        strand_path: StrandPath("doc.md".to_string()),
        event_type: "Modified".to_string(),
        previous_tie_off: "Previous review done.".to_string(),
        timeout: None,
    };

    let result = runner.execute(ctx, &mut Outside::new(play));
    assert!(result.is_ok(), "should succeed: {result:?}");

    let output = result.unwrap();
    assert!(output.stdout.contains("## Event Context"));
    assert!(output.stdout.contains("Event: Modified"));
    assert!(output.stdout.contains("Strand: doc.md"));
    assert!(output.stdout.contains("Previous tie-off:"));
    assert!(output.stdout.contains("Previous review done."));
    assert!(output.stdout.contains("Review this file."));
    assert_eq!(
        output.stdout,
        "## Event Context\nEvent: Modified\nStrand: doc.md\nPrevious tie-off:\nPrevious review done.\n\nReview this file."
    );
}

#[test]
fn execute_context_timeout_override() {
    let runner = SubprocessAgentRunner::with_timeout(TimeSpan::from_secs(120));
    let mut ctx = make_context("sleep", &["30"]);
    ctx.timeout = Some(TimeSpan::from_millis(50));

    let result = runner.execute(ctx, &mut Outside::new(play));
    assert!(result.is_err(), "should error for timeout");
    let err = result.unwrap_err();
    assert!(matches!(err, PortError::Timeout { .. }), "expected Timeout, got {err:?}");
    assert!(err.display().contains("50ms"), "should use context timeout, not runner default");
}

#[test]
fn execute_context_timeout_fallback_to_runner_default() {
    let runner = SubprocessAgentRunner::with_timeout(TimeSpan::from_millis(50));
    let ctx = make_context("sleep", &["30"]);

    let result = runner.execute(ctx, &mut Outside::new(play));
    assert!(result.is_err(), "should error for timeout");
    let err = result.unwrap_err();
    assert!(matches!(err, PortError::Timeout { .. }), "expected Timeout, got {err:?}");
    assert!(err.display().contains("50ms"), "should use runner default timeout");
}

#[test]
fn execute_context_timeout_larger_than_default() {
    let runner = SubprocessAgentRunner::with_timeout(TimeSpan::from_millis(50));
    let mut ctx = make_context("sh", &["-c", "echo ok"]);
    ctx.timeout = Some(TimeSpan::from_secs(3));
    assert_eq!(runner.effective_timeout(&ctx), TimeSpan::from_secs(3));

    let result = runner.execute(ctx, &mut Outside::new(play));
    assert!(result.is_ok(), "should succeed: {result:?}");

    let output = result.unwrap();
    assert!(output.stdout.contains("ok"));
}

#[test]
fn execute_timeout_regression_no_context_override() {
    let runner = SubprocessAgentRunner::with_timeout(TimeSpan::from_millis(100));
    let ctx = make_context("sleep", &["30"]);

    let result = runner.execute(ctx, &mut Outside::new(play));
    assert!(result.is_err(), "should error for timeout");

    let err = result.unwrap_err();
    assert!(matches!(err, PortError::Timeout { .. }), "expected Timeout, got {err:?}");
}

#[test]
fn default_timeout_is_two_minutes() {
    assert_eq!(SubprocessAgentRunner::new(), SubprocessAgentRunner::default());
    assert_eq!(
        SubprocessAgentRunner::new().effective_timeout(&make_context("cat", &[])),
        TimeSpan::from_secs(120)
    );
}

#[test]
fn broken_invocations_are_execution_failures() {
    let runner = SubprocessAgentRunner::new();
    let ctx = make_context("pi", &[]);
    let failed = |end: ProcessEnd| match runner.conclude(&ctx, end) {
        Err(PortError::AgentExecutionFailed { message, session_id: None }) => message,
        other => panic!("unexpected: {other:?}"),
    };
    assert_eq!(failed(ProcessEnd::NotStarted("denied".into())), "failed to spawn 'pi': denied");
    assert_eq!(
        failed(ProcessEnd::NoTimer("full".into())),
        "failed to spawn timeout thread: full"
    );
    assert_eq!(
        failed(ProcessEnd::PromptRefused("broken pipe".into())),
        "failed to write prompt to stdin: broken pipe"
    );
    assert_eq!(failed(ProcessEnd::NotAwaited("gone".into())), "failed to wait for 'pi': gone");
    assert_eq!(failed(exited(7, "out", "")), "'pi' exited with code 7: out");
    assert_eq!(failed(exited(-1, "out", "err")), "'pi' exited with code -1: err");
}

#[test]
fn output_that_is_not_text_is_mended() {
    let runner = SubprocessAgentRunner::new();
    let end = ProcessEnd::Ended { code: Some(0), stdout: vec![b'a', 0xff, b'b'], stderr: vec![] };
    let output = runner.conclude(&make_context("pi", &[]), end).unwrap();
    assert_eq!(output.stdout, "a\u{fffd}b");
}

#[test]
fn exit_codes_decide_the_answer() {
    let strand = StrandPath("s.md".to_string());
    let span = TimeSpan::from_millis(1500);
    let ok = conclude_exit("pi", &strand, span, Some(0), "out".into(), "err".into()).unwrap();
    assert_eq!((ok.stdout.as_str(), ok.stderr.as_str(), ok.exit_code), ("out", "err", 0));
    assert!(ok.metadata.is_none());
    assert_eq!(
        conclude_exit("pi", &strand, span, None, String::new(), String::new()).unwrap_err(),
        PortError::Timeout {
            message: "'pi' exceeded timeout of 1.5s (strand: s.md)".to_string(),
            session_id: None,
        }
    );
}

#[test]
fn spans_are_written_in_their_largest_unit() {
    let nanos = |n: u128| TimeSpan { nanos: n }.render();
    assert_eq!(nanos(0), "0ns");
    assert_eq!(nanos(999), "999ns");
    assert_eq!(nanos(1_500), "1.5µs");
    assert_eq!(nanos(2_000_000), "2ms");
    assert_eq!(nanos(50_250_000), "50.25ms");
    assert_eq!(nanos(120_000_000_000), "120s");
    assert_eq!(nanos(1_000_000_001), "1.000000001s");
}

#[test]
fn session_arguments_name_the_session_and_the_strand() {
    let config = AgentConfig {
        goal: "review".to_string(),
        provider: "openai".to_string(),
        model: "gpt-4o".to_string(),
        tools: vec!["read".to_string(), "grep".to_string()],
        extra_args: vec!["--session-id".to_string(), "sess-1".to_string()],
        thinking_level: Some("high".to_string()),
        ctx_wrap_up_limit: None,
    };
    let strand = StrandPath("strands/prd.md".to_string());
    let args = build_session_args(
        &config,
        &strand,
        &Some(strand.clone()),
        "Modified",
        &Some("review".to_string()),
    );
    let expected: Vec<String> = [
        "--provider", "openai", "--model", "gpt-4o", "--tools", "read,grep", "--thinking", "high",
        "--session-id", "sess-1", "--name", "review triggered by Modified on prd.md",
        "@strands/prd.md",
    ]
    .iter()
    .map(|s| s.to_string())
    .collect();
    assert_eq!(args, expected);
    assert_eq!(
        build_session_title(&None, "Deleted", &StrandPath("/".to_string())),
        "unknown triggered by Deleted on "
    );
}

#[test]
fn an_invocation_starts_one_process() {
    let starts = Cell::new(0u32);
    let mut run = Outside::new(|request: &ProcessRequest| {
        starts.set(starts.get() + 1);
        play(request)
    });
    let runner = SubprocessAgentRunner::new();
    assert!(runner.execute(make_context("sh", &["-c", "echo ok"]), &mut run).is_ok());
    assert_eq!(starts.get(), 1);
    assert!(runner.execute(make_context("nope", &[]), &mut run).is_err());
    assert_eq!(starts.get(), 2);
}
