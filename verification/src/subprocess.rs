//! Subprocess agent runner: what to start for an agent invocation, and what
//! its end means.
//!
//! Starting the process, feeding it and waiting for it is left to a function
//! that the runner is handed.

use crate::entities::{AgentConfig, AgentConfigView, StrandPath};
use crate::errors::{PortError, PortErrorView};
use crate::outside;
use crate::outside::Outside;
use crate::paths;
use crate::paths::file_name_of;
use crate::ports;
use crate::ports::{AgentOutput, AgentOutputView, Answer};
use crate::text;
use crate::text::signed_decimal_text;
use crate::time::TimeSpan;
use vstd::prelude::*;
use vstd::string::*;

verus! {

/// How long an agent may run by default, in seconds.
pub const DEFAULT_TIMEOUT_SECS: u64 = 120;

// ── Arguments ──────────────────────────────────────────────────────────

/// The title of an agent session: the knot, the event and the strand's file.
pub open spec fn session_title(
    knot_name: Option<Seq<char>>,
    event_type: Seq<char>,
    strand_path: Seq<char>,
) -> Seq<char> {
    (match knot_name {
        Some(name) => name,
        None => "unknown"@,
    }) + " triggered by "@ + event_type + " on "@ + text::text_or_empty(
        paths::file_name(strand_path),
    )
}

/// The arguments of an agent session: those of the configuration, the title,
/// and a reference to the strand's file where there is one.
pub open spec fn session_args(
    config: AgentConfigView,
    strand_path: Seq<char>,
    strand_file_ref: Option<Seq<char>>,
    event_type: Seq<char>,
    knot_name: Option<Seq<char>>,
) -> Seq<Seq<char>> {
    config.cli_args() + seq!["--name"@, session_title(knot_name, event_type, strand_path)] + (
    match strand_file_ref {
        Some(path) => seq!["@"@ + path],
        None => Seq::empty(),
    })
}

/// Build the title of an agent session.
pub fn build_session_title(
    knot_name: &Option<String>,
    event_type: &str,
    strand_path: &StrandPath,
) -> (title: String)
    ensures
        title@ == session_title(text::opt_text(*knot_name), event_type@, strand_path@),
{
    let mut title = match knot_name {
        Some(name) => name.clone(),
        None => "unknown".to_string(),
    };
    title.append(" triggered by ");
    title.append(event_type);
    title.append(" on ");
    match file_name_of(strand_path.0.as_str()) {
        Some(name) => {
            title.append(name.as_str());
        },
        None => {
            proof {
                assert(title@ + Seq::<char>::empty() =~= title@);
            }
        },
    }
    title
}

/// Build the arguments of an agent session.
pub fn build_session_args(
    agent_config: &AgentConfig,
    strand_path: &StrandPath,
    strand_file_ref: &Option<StrandPath>,
    event_type: &str,
    knot_name: &Option<String>,
) -> (args: Vec<String>)
    ensures
        text::texts(args@) == session_args(
            agent_config@,
            strand_path@,
            text::opt_view(*strand_file_ref),
            event_type@,
            text::opt_text(*knot_name),
        ),
{
    broadcast use text::texts_push;

    let mut args = agent_config.build_cli_args();
    args.push("--name".to_string());
    args.push(build_session_title(knot_name, event_type, strand_path));
    if let Some(path) = strand_file_ref {
        let mut reference = "@".to_string();
        reference.append(path.0.as_str());
        args.push(reference);
    }
    assert(text::texts(args@) =~= session_args(
        agent_config@,
        strand_path@,
        text::opt_view(*strand_file_ref),
        event_type@,
        text::opt_text(*knot_name),
    ));
    args
}

// ── Invocations ────────────────────────────────────────────────────────

/// An agent invocation as a command.
#[derive(Debug, PartialEq, Eq)]
pub struct CommandContext {
    /// The command to start.
    pub cli_path: String,
    /// Its arguments.
    pub cli_args: Vec<String>,
    /// Prompt to send to the agent.
    pub prompt: String,
    /// Path to the strand being processed.
    pub strand_path: StrandPath,
    /// The kind of strand event; empty when there is none.
    pub event_type: String,
    /// What the knot wrote before; empty when there is nothing.
    pub previous_tie_off: String,
    /// The session deadline; the runner's own default where there is none.
    pub timeout: Option<TimeSpan>,
}

/// The prompt of an invocation: an event context block ahead of it, where the
/// event or an earlier tie-off is known.
pub open spec fn prompt_with_context(ctx: CommandContext) -> Seq<char> {
    let event = ctx.event_type@;
    let previous = ctx.previous_tie_off@;
    if event.len() == 0 && previous.len() == 0 {
        ctx.prompt@
    } else {
        "## Event Context\n"@ + (if event.len() == 0 {
            Seq::empty()
        } else {
            "Event: "@ + event + "\n"@
        }) + "Strand: "@ + ctx.strand_path@ + "\n"@ + (if previous.len() == 0 {
            Seq::empty()
        } else {
            "Previous tie-off:\n"@ + previous + "\n"@
        }) + "\n"@ + ctx.prompt@
    }
}

/// How the process of an invocation ended.
#[derive(Debug, PartialEq, Eq)]
pub enum ProcessEnd {
    /// There is no such command.
    NotFound(String),
    /// It could not be started.
    NotStarted(String),
    /// Its deadline could not be set up.
    NoTimer(String),
    /// It did not take the prompt.
    PromptRefused(String),
    /// It could not be waited for.
    NotAwaited(String),
    /// It ended: with an exit code, unless it was killed.
    Ended { code: Option<i32>, stdout: Vec<u8>, stderr: Vec<u8> },
}

/// The text of bytes, with replacement characters for what is not UTF-8.
pub uninterp spec fn lossy_text(bytes: Seq<u8>) -> Seq<char>;

/// Calls `String::from_utf8_lossy`: the text depends on the bytes alone, and
/// is the text they encode where they are valid UTF-8.
#[verifier::external_body]
fn text_of(bytes: &Vec<u8>) -> (text: String)
    ensures
        text@ == lossy_text(bytes@),
        vstd::utf8::valid_utf8(bytes@) ==> text@ == vstd::utf8::decode_utf8(bytes@),
{
    String::from_utf8_lossy(bytes).into_owned()
}

/// An invocation that failed, without a session.
pub open spec fn failed(message: Seq<char>) -> Answer<AgentOutputView> {
    Err(PortErrorView::AgentExecutionFailed { message, session_id: None })
}

/// What the end of a process means, given its output as text: without an exit
/// code it was killed at its deadline; with a nonzero one it failed, for the
/// reason on its standard error, or else on its standard output.
pub open spec fn exit_answer(
    cli_path: Seq<char>,
    strand_path: Seq<char>,
    timeout: TimeSpan,
    code: Option<i32>,
    stdout: Seq<char>,
    stderr: Seq<char>,
) -> Answer<AgentOutputView> {
    match code {
        None => Err(
            PortErrorView::Timeout {
                message: "'"@ + cli_path + "' exceeded timeout of "@ + timeout.label()
                    + " (strand: "@ + strand_path + ")"@,
                session_id: None,
            },
        ),
        Some(exit_code) => if exit_code == 0 {
            Ok(AgentOutputView { stdout, stderr, exit_code, metadata: None })
        } else {
            failed(
                "'"@ + cli_path + "' exited with code "@ + text::signed_decimal(exit_code as int)
                    + ": "@ + (if stderr.len() == 0 {
                    stdout
                } else {
                    stderr
                }),
            )
        },
    }
}

/// What the end of an invocation means.
pub open spec fn end_answer(ctx: CommandContext, timeout: TimeSpan, end: ProcessEnd) -> Answer<
    AgentOutputView,
> {
    let cli_path = ctx.cli_path@;
    match end {
        ProcessEnd::NotFound(reason) => Err(
            PortErrorView::CommandNotFound("'"@ + cli_path + "': "@ + reason@),
        ),
        ProcessEnd::NotStarted(reason) => failed(
            "failed to spawn '"@ + cli_path + "': "@ + reason@,
        ),
        ProcessEnd::NoTimer(reason) => failed("failed to spawn timeout thread: "@ + reason@),
        ProcessEnd::PromptRefused(reason) => failed(
            "failed to write prompt to stdin: "@ + reason@,
        ),
        ProcessEnd::NotAwaited(reason) => failed(
            "failed to wait for '"@ + cli_path + "': "@ + reason@,
        ),
        ProcessEnd::Ended { code, stdout, stderr } => exit_answer(
            cli_path,
            ctx.strand_path@,
            timeout,
            code,
            lossy_text(stdout@),
            lossy_text(stderr@),
        ),
    }
}

/// What to start for an invocation.
#[derive(Debug, PartialEq, Eq)]
pub struct ProcessRequest {
    /// The command to start.
    pub cli_path: String,
    /// Its arguments.
    pub cli_args: Vec<String>,
    /// What to write to its standard input.
    pub stdin: String,
    /// When to kill it.
    pub timeout: TimeSpan,
}

/// What is started for an invocation.
pub struct ProcessRequestView {
    pub cli_path: Seq<char>,
    pub cli_args: Seq<Seq<char>>,
    pub stdin: Seq<char>,
    pub timeout: TimeSpan,
}

impl View for ProcessRequest {
    type V = ProcessRequestView;

    open spec fn view(&self) -> ProcessRequestView {
        ProcessRequestView {
            cli_path: self.cli_path@,
            cli_args: text::texts(self.cli_args@),
            stdin: self.stdin@,
            timeout: self.timeout,
        }
    }
}

/// What an invocation starts: its command with its arguments, handed the
/// prompt with its context, under the deadline.
pub open spec fn started(ctx: CommandContext, timeout: TimeSpan) -> ProcessRequestView {
    ProcessRequestView {
        cli_path: ctx.cli_path@,
        cli_args: text::texts(ctx.cli_args@),
        stdin: prompt_with_context(ctx),
        timeout,
    }
}

fn execution_failed(message: String) -> (answer: Result<AgentOutput, PortError>)
    ensures
        ports::answered(answer) == failed(message@),
{
    Err(PortError::AgentExecutionFailed { message, session_id: None })
}

fn blaming(start: &str, cli_path: &str, middle: &str, reason: &str) -> (message: String)
    ensures
        message@ == start@ + cli_path@ + middle@ + reason@,
{
    let mut message = start.to_string();
    message.append(cli_path);
    message.append(middle);
    message.append(reason);
    message
}

/// Decide what the end of a process means, given its output as text.
pub fn conclude_exit(
    cli_path: &str,
    strand_path: &StrandPath,
    timeout: TimeSpan,
    code: Option<i32>,
    stdout: String,
    stderr: String,
) -> (answer: Result<AgentOutput, PortError>)
    ensures
        ports::answered(answer) == exit_answer(
            cli_path@,
            strand_path@,
            timeout,
            code,
            stdout@,
            stderr@,
        ),
{
    match code {
        None => {
            let mut message = blaming(
                "'",
                cli_path,
                "' exceeded timeout of ",
                timeout.render().as_str(),
            );
            message.append(" (strand: ");
            message.append(strand_path.0.as_str());
            message.append(")");
            Err(PortError::Timeout { message, session_id: None })
        },
        Some(exit_code) => if exit_code == 0 {
            Ok(AgentOutput { stdout, stderr, exit_code, metadata: None })
        } else {
            let mut message = blaming(
                "'",
                cli_path,
                "' exited with code ",
                signed_decimal_text(exit_code).as_str(),
            );
            message.append(": ");
            if stderr.as_str().unicode_len() == 0 {
                message.append(stdout.as_str());
            } else {
                message.append(stderr.as_str());
            }
            execution_failed(message)
        },
    }
}

/// Runs an agent CLI as a child process, with a deadline.
#[derive(Debug, Clone, Copy, PartialEq, Eq)]
pub struct SubprocessAgentRunner {
    /// How long the agent may run where the invocation does not say.
    pub timeout: TimeSpan,
}

impl Default for SubprocessAgentRunner {
    fn default() -> (runner: Self)
        ensures
            runner.timeout.nanos == 120_000_000_000,
    {
        SubprocessAgentRunner { timeout: TimeSpan::from_secs(DEFAULT_TIMEOUT_SECS) }
    }
}

impl SubprocessAgentRunner {
    /// Create a new runner with the default timeout.
    pub fn new() -> (runner: Self)
        ensures
            runner.timeout.nanos == 120_000_000_000,
    {
        SubprocessAgentRunner { timeout: TimeSpan::from_secs(DEFAULT_TIMEOUT_SECS) }
    }

    /// Create a new runner with a custom timeout.
    pub fn with_timeout(timeout: TimeSpan) -> (runner: Self)
        ensures
            runner.timeout == timeout,
    {
        SubprocessAgentRunner { timeout }
    }

    /// The deadline of an invocation: its own, or else the runner's.
    pub open spec fn deadline(self, ctx: CommandContext) -> TimeSpan {
        match ctx.timeout {
            Some(timeout) => timeout,
            None => self.timeout,
        }
    }

    /// The deadline of an invocation: its own, or else the runner's.
    pub fn effective_timeout(&self, ctx: &CommandContext) -> (timeout: TimeSpan)
        ensures
            timeout == self.deadline(*ctx),
    {
        match ctx.timeout {
            Some(timeout) => timeout,
            None => self.timeout,
        }
    }

    /// Build the prompt, with the event context block ahead of it.
    pub fn build_prompt_with_context(ctx: &CommandContext) -> (prompt: String)
        ensures
            prompt@ == prompt_with_context(*ctx),
    {
        let event = ctx.event_type.as_str().unicode_len() > 0;
        let previous = ctx.previous_tie_off.as_str().unicode_len() > 0;
        if !event && !previous {
            return ctx.prompt.clone();
        }
        let mut full = "## Event Context\n".to_string();
        if event {
            let mut line = "Event: ".to_string();
            line.append(ctx.event_type.as_str());
            line.append("\n");
            full.append(line.as_str());
        }
        assert(full@ =~= "## Event Context\n"@ + (if !event {
            Seq::empty()
        } else {
            "Event: "@ + ctx.event_type@ + "\n"@
        }));
        full.append("Strand: ");
        full.append(ctx.strand_path.0.as_str());
        full.append("\n");
        let ghost before = full@;
        if previous {
            let mut block = "Previous tie-off:\n".to_string();
            block.append(ctx.previous_tie_off.as_str());
            block.append("\n");
            full.append(block.as_str());
        }
        assert(full@ =~= before + (if !previous {
            Seq::empty()
        } else {
            "Previous tie-off:\n"@ + ctx.previous_tie_off@ + "\n"@
        }));
        full.append("\n");
        full.append(ctx.prompt.as_str());
        full
    }

    /// What to start for an invocation.
    pub fn request(&self, ctx: &CommandContext) -> (request: ProcessRequest)
        ensures
            request@ == started(*ctx, self.deadline(*ctx)),
    {
        ProcessRequest {
            cli_path: ctx.cli_path.clone(),
            cli_args: text::clone_texts(&ctx.cli_args),
            stdin: Self::build_prompt_with_context(ctx),
            timeout: self.effective_timeout(ctx),
        }
    }

    /// Decide what the end of an invocation means.
    pub fn conclude(&self, ctx: &CommandContext, end: ProcessEnd) -> (answer: Result<
        AgentOutput,
        PortError,
    >)
        ensures
            ports::answered(answer) == end_answer(*ctx, self.deadline(*ctx), end),
    {
        let cli_path = ctx.cli_path.as_str();
        match end {
            ProcessEnd::NotFound(reason) => Err(
                PortError::CommandNotFound(blaming("'", cli_path, "': ", reason.as_str())),
            ),
            ProcessEnd::NotStarted(reason) => execution_failed(
                blaming("failed to spawn '", cli_path, "': ", reason.as_str()),
            ),
            ProcessEnd::NoTimer(reason) => {
                let mut message = "failed to spawn timeout thread: ".to_string();
                message.append(reason.as_str());
                execution_failed(message)
            },
            ProcessEnd::PromptRefused(reason) => {
                let mut message = "failed to write prompt to stdin: ".to_string();
                message.append(reason.as_str());
                execution_failed(message)
            },
            ProcessEnd::NotAwaited(reason) => execution_failed(
                blaming("failed to wait for '", cli_path, "': ", reason.as_str()),
            ),
            ProcessEnd::Ended { code, stdout, stderr } => conclude_exit(
                cli_path,
                &ctx.strand_path,
                self.effective_timeout(ctx),
                code,
                text_of(&stdout),
                text_of(&stderr),
            ),
        }
    }

    /// Execute the agent CLI: start what the invocation asks for, once, and
    /// answer what its end means.
    pub fn execute<F: Fn(&ProcessRequest) -> ProcessEnd>(
        &self,
        ctx: CommandContext,
        run: &mut Outside<ProcessRequest, ProcessEnd, F>,
    ) -> (answer: Result<AgentOutput, PortError>)
        requires
            old(run).ready(),
        ensures
            exists|end: ProcessEnd|
                {
                    &&& outside::asked(
                        *old(run),
                        *final(run),
                        seq![(started(ctx, self.deadline(ctx)), end)],
                    )
                    &&& ports::answered(answer) == #[trigger] end_answer(
                        ctx,
                        self.deadline(ctx),
                        end,
                    )
                },
    {
        let request = self.request(&ctx);
        let end = run.ask(&request);
        let ghost given = end;
        let answer = self.conclude(&ctx, end);
        proof {
            let once = seq![(started(ctx, self.deadline(ctx)), given)];
            assert(run.calls() =~= old(run).calls() + once);
            assert(ports::answered(answer) == end_answer(ctx, self.deadline(ctx), given));
        }
        answer
    }
}

/// Whatever goes ahead of it, the prompt is sent in full, at the end.
pub proof fn prompt_is_sent_in_full(ctx: CommandContext)
    ensures
        ctx.prompt@.is_suffix_of(prompt_with_context(ctx)),
{
}

/// An event is told ahead of the prompt, whatever is known of earlier
/// tie-offs: the text sent opens with a line for the event and a line for the
/// strand, and the prompt comes behind both.
pub proof fn events_are_told_ahead_of_the_prompt(ctx: CommandContext, timeout: TimeSpan)
    requires
        ctx.event_type@.len() > 0,
    ensures
        ({
            let sent = started(ctx, timeout).stdin;
            let opening = "## Event Context\n"@ + "Event: "@ + ctx.event_type@ + "\n"@
                + "Strand: "@ + ctx.strand_path@ + "\n"@;
            &&& opening.is_prefix_of(sent)
            &&& ctx.prompt@.is_suffix_of(sent)
            &&& opening.len() + ctx.prompt@.len() < sent.len()
        }),
{
    let sent = started(ctx, timeout).stdin;
    let opening = "## Event Context\n"@ + "Event: "@ + ctx.event_type@ + "\n"@ + "Strand: "@
        + ctx.strand_path@ + "\n"@;
    let rest = (if ctx.previous_tie_off@.len() == 0 {
        Seq::empty()
    } else {
        "Previous tie-off:\n"@ + ctx.previous_tie_off@ + "\n"@
    }) + "\n"@ + ctx.prompt@;
    reveal_strlit("\n");
    assert(sent =~= opening + rest);
}

/// What the knot wrote before is told in full, directly ahead of the prompt,
/// whether or not there is an event.
pub proof fn earlier_tie_offs_are_told_ahead_of_the_prompt(ctx: CommandContext, timeout: TimeSpan)
    requires
        ctx.previous_tie_off@.len() > 0,
    ensures
        ({
            let sent = started(ctx, timeout).stdin;
            let ending = "Strand: "@ + ctx.strand_path@ + "\n"@ + "Previous tie-off:\n"@
                + ctx.previous_tie_off@ + "\n"@ + "\n"@ + ctx.prompt@;
            &&& ending.is_suffix_of(sent)
            &&& ctx.event_type@.len() == 0 ==> sent == "## Event Context\n"@ + ending
        }),
{
    let sent = started(ctx, timeout).stdin;
    let ending = "Strand: "@ + ctx.strand_path@ + "\n"@ + "Previous tie-off:\n"@
        + ctx.previous_tie_off@ + "\n"@ + "\n"@ + ctx.prompt@;
    let opening = "## Event Context\n"@ + (if ctx.event_type@.len() == 0 {
        Seq::empty()
    } else {
        "Event: "@ + ctx.event_type@ + "\n"@
    });
    assert(sent =~= opening + ending);
    if ctx.event_type@.len() == 0 {
        assert(opening =~= "## Event Context\n"@);
    }
}

/// With no event and no earlier tie-off the prompt is all that is sent, and
/// with an event alone a blank line parts the strand's line from the prompt.
pub proof fn nothing_is_told_of_nothing(ctx: CommandContext, timeout: TimeSpan)
    requires
        ctx.previous_tie_off@.len() == 0,
    ensures
        ({
            let sent = started(ctx, timeout).stdin;
            &&& ctx.event_type@.len() == 0 ==> sent == ctx.prompt@
            &&& ctx.event_type@.len() > 0 ==> sent == "## Event Context\n"@ + "Event: "@
                + ctx.event_type@ + "\n"@ + "Strand: "@ + ctx.strand_path@ + "\n"@ + "\n"@
                + ctx.prompt@
        }),
{
    if ctx.event_type@.len() > 0 {
        assert(started(ctx, timeout).stdin =~= "## Event Context\n"@ + "Event: "@
            + ctx.event_type@ + "\n"@ + "Strand: "@ + ctx.strand_path@ + "\n"@ + "\n"@
            + ctx.prompt@);
    }
}

/// The process is the command that was asked for, with its arguments in order
/// and nothing else, under the invocation's own deadline where it has one.
pub proof fn commands_are_started_as_given(
    runner: SubprocessAgentRunner,
    ctx: CommandContext,
    i: int,
)
    ensures
        ({
            let request = started(ctx, runner.deadline(ctx));
            &&& request.cli_path == ctx.cli_path@
            &&& request.cli_args.len() == ctx.cli_args@.len()
            &&& 0 <= i < ctx.cli_args@.len() ==> request.cli_args[i] == ctx.cli_args@[i]@
            &&& ctx.timeout is Some ==> request.timeout == ctx.timeout->0
            &&& ctx.timeout is None ==> request.timeout == runner.timeout
        }),
{
}

/// An invocation succeeds exactly when its process ended with exit code zero,
/// and then gives back both of its outputs.
pub proof fn only_exit_code_zero_succeeds(ctx: CommandContext, timeout: TimeSpan, end: ProcessEnd)
    ensures
        ({
            let answer = end_answer(ctx, timeout, end);
            &&& answer is Ok <==> end is Ended && end->code == Some(0i32)
            &&& answer is Ok ==> {
                &&& answer->Ok_0.exit_code == 0
                &&& answer->Ok_0.stdout == lossy_text(end->stdout@)
                &&& answer->Ok_0.stderr == lossy_text(end->stderr@)
                &&& answer->Ok_0.metadata is None
            }
        }),
{
}

/// Each way for an invocation to fail has its own error, none of them with a
/// session: a missing command, a deadline that was passed, which is the only
/// timeout, and an execution that failed, with its reason at the end.
pub proof fn failures_are_told_apart(ctx: CommandContext, timeout: TimeSpan, end: ProcessEnd)
    ensures
        ({
            let answer = end_answer(ctx, timeout, end);
            let error = answer->Err_0;
            &&& answer is Err && error is CommandNotFound <==> end is NotFound
            &&& answer is Err && error is Timeout <==> end is Ended && end->code is None
            &&& answer is Err && !(error is CommandNotFound) && !(error is Timeout)
                ==> error is AgentExecutionFailed
            &&& error is Timeout && answer is Err ==> {
                &&& error->Timeout_session_id is None
                &&& error->Timeout_message == "'"@ + ctx.cli_path@ + "' exceeded timeout of "@
                    + timeout.label() + " (strand: "@ + ctx.strand_path@ + ")"@
            }
            &&& error is AgentExecutionFailed && answer is Err
                ==> error->AgentExecutionFailed_session_id is None
            &&& match end {
                ProcessEnd::NotFound(reason) => answer == Err::<AgentOutputView, PortErrorView>(
                    PortErrorView::CommandNotFound("'"@ + ctx.cli_path@ + "': "@ + reason@),
                ),
                ProcessEnd::NotStarted(reason) => error->AgentExecutionFailed_message
                    == "failed to spawn '"@ + ctx.cli_path@ + "': "@ + reason@,
                ProcessEnd::NoTimer(reason) => error->AgentExecutionFailed_message
                    == "failed to spawn timeout thread: "@ + reason@,
                ProcessEnd::PromptRefused(reason) => error->AgentExecutionFailed_message
                    == "failed to write prompt to stdin: "@ + reason@,
                ProcessEnd::NotAwaited(reason) => error->AgentExecutionFailed_message
                    == "failed to wait for '"@ + ctx.cli_path@ + "': "@ + reason@,
                ProcessEnd::Ended { code, stdout, stderr } => code is Some && code->0 != 0 ==> {
                    let reason = if lossy_text(stderr@).len() > 0 {
                        lossy_text(stderr@)
                    } else {
                        lossy_text(stdout@)
                    };
                    error->AgentExecutionFailed_message == "'"@ + ctx.cli_path@
                        + "' exited with code "@ + text::signed_decimal(code->0 as int) + ": "@
                        + reason
                },
            }
        }),
{
}

/// A session's arguments are those of its configuration, then its name, then
/// the strand's file where one is referred to, and nothing else.
pub proof fn session_arguments_are_complete(
    config: AgentConfigView,
    strand_path: Seq<char>,
    strand_file_ref: Option<Seq<char>>,
    event_type: Seq<char>,
    knot_name: Option<Seq<char>>,
)
    ensures
        ({
            let args = session_args(config, strand_path, strand_file_ref, event_type, knot_name);
            let own = config.cli_args();
            let knot = if knot_name is Some {
                knot_name->0
            } else {
                "unknown"@
            };
            let file = if paths::file_name(strand_path) is Some {
                paths::file_name(strand_path)->0
            } else {
                Seq::empty()
            };
            &&& own.is_prefix_of(args)
            &&& args[own.len() as int] == "--name"@
            &&& args[own.len() as int + 1] == knot + " triggered by "@ + event_type + " on "@ + file
            &&& strand_file_ref is Some ==> args.len() == own.len() + 3 && args.last() == "@"@
                + strand_file_ref->0
            &&& strand_file_ref is None ==> args.len() == own.len() + 2
        }),
{
    let args = session_args(config, strand_path, strand_file_ref, event_type, knot_name);
    assert(config.cli_args().is_prefix_of(args));
}

} // verus!
