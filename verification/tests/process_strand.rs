//! A strand event runs a knot's agent.

use knot::entities::{
    AgentConfig, AgentProfile, Knot, KnotId, Loom, LoomId, PromptTemplate, StrandPath, TieOff,
    TieOffPath, TieOffStatus,
};
use knot::errors::PortError;
use knot::events::{LoomEvent, RigLogEvent, StrandEvent};
use knot::ports::{
    manual_compact_unsupported, AgentOutput, AgentProfileRepository, AgentRunner,
    CompactionRecord, ExecutionContext, GitVersioningPort, LoomLogPort, RigLogPort, TieOffSink,
};
use knot::store::LoomStore;
use knot::subprocess::build_session_args;
use knot::time::TimeSpan;
use knot::usecases::{ProcessStrand, StrandContent};
use std::collections::{HashMap, VecDeque};

#[derive(Default)]
struct TrackingLoomLogPort {
    events: Vec<LoomEvent>,
}

impl LoomLogPort for TrackingLoomLogPort {
    fn open(&mut self, _loom_id: &LoomId) -> Result<(), PortError> {
        Ok(())
    }

    fn append(&mut self, event: LoomEvent) -> Result<(), PortError> {
        self.events.push(event);
        Ok(())
    }

    fn read_all(&mut self, _loom_id: &LoomId) -> Result<Vec<LoomEvent>, PortError> {
        Ok(self.events.clone())
    }
}

/// What a runner was handed.
struct Captured {
    cli_args: Vec<String>,
    prompt: String,
    profile_prompt: String,
    event_type: String,
    knot_name: Option<String>,
    timeout: Option<TimeSpan>,
}

/// A runner that answers from a queue, then with one result for good.
struct ConfigurableAgentRunner {
    result: Result<AgentOutput, PortError>,
    sequence: VecDeque<Result<AgentOutput, PortError>>,
    captured: Vec<Captured>,
}

impl ConfigurableAgentRunner {
    fn new(result: Result<AgentOutput, PortError>) -> Self {
        Self { result, sequence: VecDeque::new(), captured: vec![] }
    }

    fn new_sequence(results: Vec<Result<AgentOutput, PortError>>) -> Self {
        Self { result: Ok(output("")), sequence: results.into(), captured: vec![] }
    }
}

impl AgentRunner for ConfigurableAgentRunner {
    fn execute(&mut self, ctx: ExecutionContext) -> Result<AgentOutput, PortError> {
        self.captured.push(Captured {
            cli_args: ctx.agent_config.build_cli_args(),
            prompt: ctx.prompt,
            profile_prompt: ctx.profile_prompt,
            event_type: ctx.event_type,
            knot_name: ctx.knot_name,
            timeout: ctx.timeout,
        });
        match self.sequence.pop_front() {
            Some(result) => result,
            None => self.result.clone(),
        }
    }

    fn execute_with_config(
        &mut self,
        agent_config: &AgentConfig,
        strand_path: StrandPath,
        strand_file_ref: Option<StrandPath>,
        prompt: String,
        profile_prompt: String,
        event_type: String,
        knot_name: Option<String>,
        timeout: Option<TimeSpan>,
    ) -> Result<AgentOutput, PortError> {
        let cli_args = build_session_args(
            agent_config,
            &strand_path,
            &strand_file_ref,
            &event_type,
            &knot_name,
        );
        let captured = Captured { cli_args, prompt, profile_prompt, event_type, knot_name, timeout };
        self.captured.push(captured);
        match self.sequence.pop_front() {
            Some(result) => result,
            None => self.result.clone(),
        }
    }

    fn manual_compact(
        &mut self,
        _ctx: &ExecutionContext,
        session_id: &str,
        _custom_instructions: &str,
    ) -> Result<CompactionRecord, PortError> {
        Err(manual_compact_unsupported(session_id))
    }

    fn runner_type(&self) -> &str {
        "test"
    }
}

/// A sink that keeps what is appended, under its path too.
#[derive(Default)]
struct TrackingTieOffSink {
    appends: Vec<TieOff>,
    content: HashMap<String, String>,
    writes: usize,
}

impl TieOffSink for TrackingTieOffSink {
    fn write(&mut self, tie_off: TieOff) -> Result<(), PortError> {
        self.writes += 1;
        self.content.insert(tie_off.path.0, tie_off.content);
        Ok(())
    }

    fn append(&mut self, tie_off: TieOff) -> Result<(), PortError> {
        self.appends.push(tie_off.clone());
        self.content.insert(tie_off.path.0, tie_off.content);
        Ok(())
    }

    fn read_content(&mut self, path: &TieOffPath) -> Result<String, PortError> {
        Ok(self.content.get(&path.0).cloned().unwrap_or_default())
    }
}

#[derive(Default)]
struct MockRigLogPort {
    events: Vec<RigLogEvent>,
}

impl RigLogPort for MockRigLogPort {
    fn append(&mut self, event: RigLogEvent) -> Result<(), PortError> {
        self.events.push(event);
        Ok(())
    }

    fn read_all(&mut self) -> Result<Vec<RigLogEvent>, PortError> {
        Ok(self.events.clone())
    }
}

#[derive(Default)]
struct MockProfileRepository {
    profiles: Vec<AgentProfile>,
}

impl AgentProfileRepository for MockProfileRepository {
    fn get(&mut self, name: &str) -> Result<Option<AgentProfile>, PortError> {
        Ok(self.profiles.iter().find(|p| p.name == name).cloned())
    }

    fn list(&mut self) -> Result<Vec<AgentProfile>, PortError> {
        Ok(self.profiles.clone())
    }
}

/// A git port that notes the commits, and may refuse them.
#[derive(Default)]
struct TrackingGitVersioningPort {
    commits: Vec<(LoomId, KnotId, String, String, String)>,
    force_error: Option<PortError>,
}

impl GitVersioningPort for TrackingGitVersioningPort {
    fn commit(
        &mut self,
        loom_id: &LoomId,
        knot_id: &KnotId,
        strand_path: &StrandPath,
        event_type: &str,
        tie_off_content: &str,
    ) -> Result<(), PortError> {
        self.commits.push((
            loom_id.clone(),
            knot_id.clone(),
            strand_path.0.clone(),
            event_type.to_string(),
            tie_off_content.to_string(),
        ));
        match &self.force_error {
            Some(error) => Err(error.clone()),
            None => Ok(()),
        }
    }

    fn ensure_rig_repo(&mut self, _rig_dir: &str) -> Result<(), PortError> {
        Ok(())
    }
}

type Inspect = Box<dyn Fn(&StrandPath) -> StrandContent>;

type Clock = Box<dyn Fn(&TimeSpan) -> TimeSpan>;

type Strands = ProcessStrand<
    TrackingLoomLogPort,
    ConfigurableAgentRunner,
    TrackingTieOffSink,
    MockProfileRepository,
    MockRigLogPort,
    TrackingGitVersioningPort,
    Inspect,
    Clock,
>;

/// What stands at a path of a disk that holds these files.
///
/// A file with a zero byte is binary, and a lost file whose name is `sed` and
/// seven characters is a temporary file of a known kind.
fn disk(files: Vec<(&str, Vec<u8>)>) -> Inspect {
    let files: HashMap<String, Vec<u8>> =
        files.into_iter().map(|(path, bytes)| (path.to_string(), bytes)).collect();
    Box::new(move |path: &StrandPath| match files.get(&path.0) {
        Some(bytes) if bytes.contains(&0) => StrandContent::Binary,
        Some(_) => StrandContent::Text,
        None => {
            let name = path.0.rsplit('/').next().unwrap_or("");
            StrandContent::Missing { known_temp: name.starts_with("sed") && name.len() == 10 }
        }
    })
}

fn every_file_is_text() -> Inspect {
    Box::new(|_: &StrandPath| StrandContent::Text)
}

fn build_knot(id: &str, profile: &str) -> Knot {
    Knot {
        id: KnotId(id.to_string()),
        agent_profile_ref: profile.to_string(),
        prompt_template: PromptTemplate { instructions: "check it".to_string() },
        strand_dir: "strands".to_string(),
        git_versioned: true,
    }
}

fn build_loom(id: &str, knots: Vec<Knot>) -> Loom {
    Loom { id: LoomId(id.to_string()), knots }
}

fn profile(name: &str, provider: &str, model: &str, prompt: &str) -> AgentProfile {
    AgentProfile {
        name: name.to_string(),
        provider: provider.to_string(),
        model: model.to_string(),
        tools: vec![],
        profile_prompt: prompt.to_string(),
        timeout: None,
    }
}

fn default_profile() -> AgentProfile {
    profile("fast", "openai", "gpt-4o", "You are fast.")
}

fn with_tools(profile: AgentProfile, tools: &[&str]) -> AgentProfile {
    AgentProfile { tools: tools.iter().map(|t| t.to_string()).collect(), ..profile }
}

fn output(stdout: &str) -> AgentOutput {
    AgentOutput {
        stdout: stdout.to_string(),
        stderr: String::new(),
        exit_code: 0,
        metadata: None,
    }
}

fn timeout(message: &str, session_id: Option<&str>) -> PortError {
    PortError::Timeout {
        message: message.to_string(),
        session_id: session_id.map(|s| s.to_string()),
    }
}

fn build_with(
    loom: Loom,
    runner: ConfigurableAgentRunner,
    profiles: Vec<AgentProfile>,
    inspect: Inspect,
) -> Strands {
    let mut store = LoomStore::new();
    store.register(loom);
    ProcessStrand::new(
        store,
        TrackingLoomLogPort::default(),
        runner,
        TrackingTieOffSink::default(),
        "/rig".to_string(),
        MockProfileRepository { profiles },
        MockRigLogPort::default(),
        TrackingGitVersioningPort::default(),
        inspect,
        Box::new(|_: &TimeSpan| TimeSpan::from_secs(0)),
        Some(0),
    )
}

fn build_process_strand(loom: Loom, runner: ConfigurableAgentRunner) -> Strands {
    build_with(loom, runner, vec![default_profile()], every_file_is_text())
}

fn created(loom: &str, knot: &str, path: &str) -> StrandEvent {
    StrandEvent::Created {
        loom_id: LoomId(loom.to_string()),
        knot_id: KnotId(knot.to_string()),
        strand_path: StrandPath(path.to_string()),
    }
}

fn modified(loom: &str, knot: &str, path: &str) -> StrandEvent {
    StrandEvent::Modified {
        loom_id: LoomId(loom.to_string()),
        knot_id: KnotId(knot.to_string()),
        strand_path: StrandPath(path.to_string()),
    }
}

fn deleted(loom: &str, knot: &str, path: &str) -> StrandEvent {
    StrandEvent::Deleted {
        loom_id: LoomId(loom.to_string()),
        knot_id: KnotId(knot.to_string()),
        strand_path: StrandPath(path.to_string()),
    }
}

fn has_file_ref(args: &[String]) -> bool {
    args.iter().any(|arg| arg.starts_with('@'))
}

/// The value after `--name`.
fn find_name_value(args: &[String]) -> Option<String> {
    let pos = args.iter().position(|a| a == "--name")?;
    args.get(pos + 1).cloned()
}

// ── Profiles ───────────────────────────────────────────────────────────

fn resolving(profiles: Vec<AgentProfile>) -> Strands {
    build_with(
        build_loom("unused", vec![]),
        ConfigurableAgentRunner::new(Ok(output("mock output"))),
        profiles,
        every_file_is_text(),
    )
}

fn build_profile_knot(id: &str, profile_name: &str) -> Knot {
    Knot {
        prompt_template: PromptTemplate { instructions: "check with profile".to_string() },
        ..build_knot(id, profile_name)
    }
}

#[test]
fn resolve_agent_config_from_profile() {
    let mut use_case = resolving(vec![with_tools(default_profile(), &["fs", "web"])]);
    let knot = build_profile_knot("k1", "fast");
    let (config, profile_timeout) = use_case.resolve_agent_config(&knot).unwrap();

    assert_eq!(config.provider, "openai");
    assert_eq!(profile_timeout, None);
    assert_eq!(config.model, "gpt-4o");
    assert_eq!(config.tools, vec!["fs", "web"]);
    assert_eq!(config.goal, knot.prompt_template.instructions);
}

#[test]
fn resolve_agent_config_profile_not_found() {
    let mut use_case = resolving(vec![]);
    let knot = build_profile_knot("k1", "nonexistent");
    match use_case.resolve_agent_config(&knot).unwrap_err() {
        PortError::ProfileNotFound(name) => assert_eq!(name, "nonexistent"),
        other => panic!("Expected ProfileNotFound, got {other:?}"),
    }
}

#[test]
fn resolve_agent_config_same_profile_multiple_knots() {
    let detailed = profile("detailed", "mistral", "mistral-large-20250514", "Be thorough.");
    let mut use_case = resolving(vec![with_tools(detailed, &["fs", "web"])]);

    let knot1 = build_profile_knot("k1", "detailed");
    let knot2 = build_profile_knot("k2", "detailed");
    let (config1, timeout1) = use_case.resolve_agent_config(&knot1).unwrap();
    let (config2, timeout2) = use_case.resolve_agent_config(&knot2).unwrap();

    assert_eq!(timeout1, None);
    assert_eq!(timeout2, None);
    assert_eq!(config1.provider, "mistral");
    assert_eq!(config1.model, "mistral-large-20250514");
    assert_eq!(config2.provider, "mistral");
    assert_eq!(config2.model, "mistral-large-20250514");
    assert_eq!(config1.tools, vec!["fs", "web"]);
    assert_eq!(config2.tools, vec!["fs", "web"]);
}

#[test]
fn resolve_agent_config_dynamic_profile_pickup() {
    let mut use_case = resolving(vec![]);
    let knot = build_profile_knot("k1", "new-profile");
    assert!(use_case.resolve_agent_config(&knot).is_err());

    let new_profile = profile("new-profile", "openai", "gpt-4o", "You are new.");
    use_case.profile_repo.profiles.push(with_tools(new_profile, &["fs"]));

    let (config, profile_timeout) = use_case.resolve_agent_config(&knot).unwrap();
    assert_eq!(config.provider, "openai");
    assert_eq!(profile_timeout, None);
    assert_eq!(config.model, "gpt-4o");
    assert_eq!(config.tools, vec!["fs"]);
}

#[test]
fn profile_ref_cli_args_no_system_prompt_flag() {
    let editor =
        profile("editor", "openai", "gpt-4o", "You are a careful editor. Be precise and concise.");
    let mut use_case = resolving(vec![editor]);
    let knot = build_profile_knot("k1", "editor");
    let (config, _profile_timeout) = use_case.resolve_agent_config(&knot).unwrap();
    let args = config.build_cli_args();

    assert!(!args.contains(&"--system-prompt".to_string()));
    let model_index = args.iter().position(|a| a == "--model").expect("--model flag missing");
    assert_eq!(args[model_index + 1], "gpt-4o");
}

#[test]
fn resolve_agent_config_returns_timeout_from_profile() {
    let slow = profile("slow", "mistral", "mistral-large", "You are thorough.");
    let mut use_case = resolving(vec![AgentProfile { timeout: Some(600), ..slow }]);
    let (_config, timeout) = use_case.resolve_agent_config(&build_knot("k1", "slow")).unwrap();
    assert_eq!(timeout, Some(TimeSpan::from_secs(600)));
}

#[test]
fn resolve_agent_config_returns_none_timeout_from_profile() {
    let mut use_case = resolving(vec![default_profile()]);
    let (_config, timeout) = use_case.resolve_agent_config(&build_knot("k1", "fast")).unwrap();
    assert_eq!(timeout, None);
}

// ── Outcomes ───────────────────────────────────────────────────────────

#[test]
fn process_strand_timeout_skip_tieoff_write_rig_log() {
    let loom = build_loom("test-loom", vec![build_knot("k1", "fast")]);
    let runner = ConfigurableAgentRunner::new(Err(timeout("session exceeded 60s", None)));
    let mut use_case = build_process_strand(loom, runner);

    let result = use_case.execute(created("test-loom", "k1", "/work/strand.md"));
    assert!(result.is_ok());

    let events = &use_case.log_port.events;
    assert_eq!(events.len(), 3, "should have 3 loom-log events");
    match &events[0] {
        LoomEvent::KnotProcessing { knot_id, .. } => assert_eq!(knot_id.0, "k1"),
        other => panic!("expected KnotProcessing, got {other:?}"),
    }
    match &events[1] {
        LoomEvent::KnotFailed { knot_id, error, .. } => {
            assert_eq!(knot_id.0, "k1");
            assert!(error.contains("timeout"));
        }
        other => panic!("expected KnotFailed, got {other:?}"),
    }
    match &events[2] {
        LoomEvent::StrandProcessed { error, .. } => {
            assert!(error.is_some(), "error should be present");
            assert!(error.as_ref().unwrap().contains("timeout"));
        }
        other => panic!("expected StrandProcessed, got {other:?}"),
    }

    let rig = &use_case.rig_log.events;
    assert_eq!(rig.len(), 1, "should have 1 rig-log event");
    match &rig[0] {
        RigLogEvent::TimeoutExceeded { loom_id, knot_id, error, .. } => {
            assert_eq!(loom_id.0, "test-loom");
            assert_eq!(knot_id.0, "k1");
            assert!(error.contains("timeout"));
        }
        other => panic!("expected TimeoutExceeded, got {other:?}"),
    }

    assert!(use_case.tie_off_sink.appends.is_empty());
}

#[test]
fn process_strand_non_timeout_error_writes_tieoff() {
    let loom = build_loom("test-loom", vec![build_knot("k1", "fast")]);
    let runner = ConfigurableAgentRunner::new(Err(PortError::AgentExecutionFailed {
        message: "crash".to_string(),
        session_id: None,
    }));
    let mut use_case = build_process_strand(loom, runner);

    let result = use_case.execute(created("test-loom", "k1", "/work/strand.md"));
    assert!(result.is_ok());

    let events = &use_case.log_port.events;
    assert_eq!(events.len(), 3);
    match &events[1] {
        LoomEvent::KnotFailed { error, .. } => assert!(error.contains("crash")),
        other => panic!("expected KnotFailed, got {other:?}"),
    }

    assert!(use_case.rig_log.events.is_empty());

    let appends = &use_case.tie_off_sink.appends;
    assert_eq!(appends.len(), 1, "tie-off should be appended");
    assert_eq!(appends[0].status, TieOffStatus::Failed);
    assert!(appends[0].content.contains("Processing failed"), "got: {}", appends[0].content);
    assert!(appends[0].content.contains("crash"), "got: {}", appends[0].content);
}

#[test]
fn process_strand_success_no_rig_log() {
    let loom = build_loom("test-loom", vec![build_knot("k1", "fast")]);
    let runner = ConfigurableAgentRunner::new(Ok(output("agent output")));
    let mut use_case = build_process_strand(loom, runner);

    let result = use_case.execute(created("test-loom", "k1", "/work/strand.md"));
    assert!(result.is_ok());

    let events = &use_case.log_port.events;
    assert_eq!(events.len(), 3);
    match &events[1] {
        LoomEvent::KnotCompleted { .. } => {}
        other => panic!("expected KnotCompleted, got {other:?}"),
    }

    assert!(use_case.rig_log.events.is_empty(), "rig-log should be empty on success");

    let appends = &use_case.tie_off_sink.appends;
    assert_eq!(appends.len(), 1);
    assert_eq!(appends[0].status, TieOffStatus::Produced);
    assert_eq!(appends[0].content, "agent output");
    assert_eq!(appends[0].path.0, "/rig/tie-offs/test-loom/k1/k1-tie-off.md");
}

// ── Deleted strands ────────────────────────────────────────────────────

fn deleting() -> Strands {
    build_process_strand(
        build_loom("test-loom", vec![build_knot("k1", "fast")]),
        ConfigurableAgentRunner::new(Ok(output("ok"))),
    )
}

#[test]
fn process_strand_deleted_skips_at_file_arg() {
    let mut use_case = deleting();
    assert!(use_case.execute(deleted("test-loom", "k1", "input/strand.md")).is_ok());
    let ctx = use_case.agent_runner.captured.last().unwrap();
    assert!(!has_file_ref(&ctx.cli_args), "got: {:?}", ctx.cli_args);
}

#[test]
fn process_strand_deleted_injects_deletion_notice() {
    let mut use_case = deleting();
    assert!(use_case.execute(deleted("test-loom", "k1", "input/strand.md")).is_ok());
    let ctx = use_case.agent_runner.captured.last().unwrap();
    assert!(ctx.prompt.contains("This file was deleted"), "got: {}", ctx.prompt);
    assert!(
        ctx.prompt.contains("git history to help understand the file scope"),
        "got: {}",
        ctx.prompt
    );
}

#[test]
fn process_strand_deleted_includes_strand_history() {
    let mut use_case = deleting();
    use_case.tie_off_sink.content.insert(
        "/rig/tie-offs/test-loom/k1/k1-tie-off.md".to_string(),
        "## review triggered by Created input/strand.md\n\
         Timestamp: 2026-06-05T10:00:00Z\n\
         ---\n\
         Initial review content\n\
         ---\n\
         ## review triggered by Modified input/strand.md\n\
         Timestamp: 2026-06-05T11:00:00Z\n\
         ---\n\
         Updated review content"
            .to_string(),
    );

    assert!(use_case.execute(deleted("test-loom", "k1", "input/strand.md")).is_ok());

    let ctx = use_case.agent_runner.captured.last().unwrap();
    assert!(ctx.prompt.contains("This file was deleted"));
    assert!(ctx.prompt.contains("Previous processing history"));
    assert!(ctx.prompt.contains("## review triggered by Created input/strand.md"));
    assert!(ctx.prompt.contains("Initial review content"));
    assert!(ctx.prompt.contains("## review triggered by Modified input/strand.md"));
    assert!(ctx.prompt.contains("Updated review content"));
    assert!(!has_file_ref(&ctx.cli_args));

    assert_eq!(use_case.tie_off_sink.appends.len(), 1, "tie-off should be appended");
}

#[test]
fn process_strand_created_still_uses_at_file() {
    let mut use_case = deleting();
    assert!(use_case.execute(created("test-loom", "k1", "/work/strand.md")).is_ok());
    let ctx = use_case.agent_runner.captured.last().unwrap();
    assert!(
        ctx.cli_args.iter().any(|arg| arg.starts_with('@') && arg.contains("strand.md")),
        "got: {:?}",
        ctx.cli_args
    );
    assert!(!ctx.prompt.contains("This file was deleted"));
}

#[test]
fn process_strand_deleted_no_history_injects_notice_only() {
    let mut use_case = deleting();
    assert!(use_case.tie_off_sink.content.is_empty());
    assert!(use_case.execute(deleted("test-loom", "k1", "input/strand.md")).is_ok());
    let ctx = use_case.agent_runner.captured.last().unwrap();
    assert!(ctx.prompt.contains("This file was deleted"));
    assert!(!ctx.prompt.contains("Previous processing history"));
    assert!(!has_file_ref(&ctx.cli_args));
}

// ── Retries ────────────────────────────────────────────────────────────

#[test]
fn process_strand_retry_transparent_success() {
    let loom = build_loom("test-loom", vec![build_knot("k1", "fast")]);
    let runner = ConfigurableAgentRunner::new_sequence(vec![
        Err(timeout("timed out", Some("sess-abc"))),
        Ok(output("success after retry")),
    ]);
    let mut use_case = build_process_strand(loom, runner);

    let result = use_case.execute(created("test-loom", "k1", "/work/strand.md"));
    assert!(result.is_ok());

    let events = &use_case.log_port.events;
    assert_eq!(events.len(), 4, "should have 4 loom-log events");
    match &events[0] {
        LoomEvent::KnotProcessing { .. } => {}
        other => panic!("expected KnotProcessing, got {other:?}"),
    }
    match &events[1] {
        LoomEvent::SessionResumed { attempt, .. } => assert_eq!(*attempt, 1),
        other => panic!("expected SessionResumed, got {other:?}"),
    }
    match &events[2] {
        LoomEvent::KnotCompleted { .. } => {}
        other => panic!("expected KnotCompleted, got {other:?}"),
    }
    assert!(!events.iter().any(|e| matches!(e, LoomEvent::KnotFailed { .. })));

    assert!(use_case.rig_log.events.is_empty());

    let appends = &use_case.tie_off_sink.appends;
    assert_eq!(appends.len(), 1);
    assert_eq!(appends[0].status, TieOffStatus::Produced);
    assert_eq!(appends[0].content, "success after retry");
}

#[test]
fn process_strand_retry_exhausted_fails() {
    let loom = build_loom("test-loom", vec![build_knot("k1", "fast")]);
    let responses = (0..20).map(|_| Err(timeout("timed out", Some("sess-abc")))).collect();
    let runner = ConfigurableAgentRunner::new_sequence(responses);
    let mut use_case = build_process_strand(loom, runner);

    let result = use_case.execute(created("test-loom", "k1", "/work/strand.md"));
    assert!(result.is_ok());

    let events = &use_case.log_port.events;
    let resumed = events.iter().filter(|e| matches!(e, LoomEvent::SessionResumed { .. })).count();
    assert_eq!(resumed, 10);
    assert!(events.iter().any(|e| matches!(e, LoomEvent::KnotFailed { .. })));

    let rig = &use_case.rig_log.events;
    assert_eq!(rig.len(), 1);
    match &rig[0] {
        RigLogEvent::TimeoutExceeded { .. } => {}
        other => panic!("expected TimeoutExceeded, got {other:?}"),
    }
}

#[test]
fn process_strand_no_retry_stdio() {
    let loom = build_loom("test-loom", vec![build_knot("k1", "fast")]);
    let runner = ConfigurableAgentRunner::new(Err(timeout("timed out (no session)", None)));
    let mut use_case = build_process_strand(loom, runner);

    let result = use_case.execute(created("test-loom", "k1", "/work/strand.md"));
    assert!(result.is_ok());

    let events = &use_case.log_port.events;
    assert_eq!(events.len(), 3);
    assert!(!events.iter().any(|e| matches!(e, LoomEvent::SessionResumed { .. })));
    match &events[1] {
        LoomEvent::KnotFailed { error, .. } => assert!(error.contains("no session")),
        other => panic!("expected KnotFailed, got {other:?}"),
    }

    let rig = &use_case.rig_log.events;
    assert_eq!(rig.len(), 1);
    match &rig[0] {
        RigLogEvent::TimeoutExceeded { .. } => {}
        other => panic!("expected TimeoutExceeded, got {other:?}"),
    }
}

// ── Timeouts ───────────────────────────────────────────────────────────

#[test]
fn process_strand_execute_passes_profile_timeout_to_context() {
    let timed = AgentProfile {
        timeout: Some(60),
        ..profile("timed", "openai", "gpt-4o", "Timed review.")
    };
    let mut use_case = build_with(
        build_loom("test-loom", vec![build_knot("k1", "timed")]),
        ConfigurableAgentRunner::new(Ok(output("mock output"))),
        vec![timed],
        every_file_is_text(),
    );
    assert!(use_case.execute(created("test-loom", "k1", "/work/strand.md")).is_ok());

    let contexts = &use_case.agent_runner.captured;
    assert_eq!(contexts.len(), 1, "should have called execute once");
    assert_eq!(contexts[0].timeout, Some(TimeSpan::from_secs(30)));
}

#[test]
fn process_strand_execute_passes_none_timeout_to_context() {
    let mut use_case = build_with(
        build_loom("test-loom", vec![build_knot("k1", "default")]),
        ConfigurableAgentRunner::new(Ok(output("mock output"))),
        vec![profile("default", "openai", "gpt-4o", "Default timeout.")],
        every_file_is_text(),
    );
    assert!(use_case.execute(created("test-loom", "k1", "/work/strand.md")).is_ok());

    let contexts = &use_case.agent_runner.captured;
    assert_eq!(contexts.len(), 1, "should have called execute once");
    assert_eq!(contexts[0].timeout, None);
}

// ── Git versioning ─────────────────────────────────────────────────────

fn versioning(git_versioned: bool) -> Strands {
    let knot = Knot { git_versioned, ..build_knot("k1", "fast") };
    build_process_strand(
        build_loom("test-loom", vec![knot]),
        ConfigurableAgentRunner::new(Ok(output("agent output"))),
    )
}

#[test]
fn process_strand_calls_git_port_on_success() {
    let mut use_case = versioning(true);
    assert!(use_case.execute(created("test-loom", "k1", "/work/strand.md")).is_ok());

    let commits = &use_case.git_versioning_port.commits;
    assert_eq!(commits.len(), 1);
    let (loom_id, knot_id, strand, et, content) = &commits[0];
    assert_eq!(loom_id.0, "test-loom");
    assert_eq!(knot_id.0, "k1");
    assert!(strand.ends_with("strand.md"));
    assert_eq!(et, "Created");
    assert_eq!(content, "agent output");
}

#[test]
fn process_strand_skips_git_when_disabled() {
    let mut use_case = versioning(false);
    assert!(use_case.execute(created("test-loom", "k1", "/work/strand.md")).is_ok());
    assert!(use_case.git_versioning_port.commits.is_empty());
}

#[test]
fn process_strand_continues_on_git_error() {
    let mut use_case = versioning(true);
    use_case.git_versioning_port.force_error =
        Some(PortError::GitCommitFailed("not a git repo".to_string()));

    let result = use_case.execute(created("test-loom", "k1", "/work/strand.md"));
    assert!(result.is_ok(), "processing should succeed despite git commit failure");
    assert_eq!(use_case.git_versioning_port.commits.len(), 1);
}

// ── Session titles ─────────────────────────────────────────────────────

fn titling(loom: &str, knot: &str) -> Strands {
    build_process_strand(
        build_loom(loom, vec![build_knot(knot, "fast")]),
        ConfigurableAgentRunner::new(Ok(output("mock output"))),
    )
}

#[test]
fn process_strand_cli_args_contain_name_flag() {
    let mut use_case = titling("test-loom", "plan-architect");
    let event = modified("test-loom", "plan-architect", "/work/004-manifest-resources.md");
    assert!(use_case.execute(event).is_ok());

    let contexts = &use_case.agent_runner.captured;
    assert_eq!(contexts.len(), 1, "should have called execute once");
    let args = &contexts[0].cli_args;
    assert!(args.contains(&"--name".to_string()), "got: {:?}", args);
    assert_eq!(
        find_name_value(args).expect("--name should have a value"),
        "plan-architect triggered by Modified on 004-manifest-resources.md",
    );
}

#[test]
fn process_strand_title_format_created_event() {
    let mut use_case = titling("review-loom", "editor");
    use_case.execute(created("review-loom", "editor", "/work/new-file.md")).unwrap();
    assert_eq!(
        find_name_value(&use_case.agent_runner.captured[0].cli_args).unwrap(),
        "editor triggered by Created on new-file.md",
    );
}

#[test]
fn process_strand_title_format_deleted_event() {
    let mut use_case = titling("test-loom", "cleanup");
    use_case.execute(deleted("test-loom", "cleanup", "input/old-file.md")).unwrap();
    assert_eq!(
        find_name_value(&use_case.agent_runner.captured[0].cli_args).unwrap(),
        "cleanup triggered by Deleted on old-file.md",
    );
}

#[test]
fn process_strand_title_unique_per_strand() {
    let mut use_case = titling("test-loom", "editor");
    use_case.execute(modified("test-loom", "editor", "/work/file-a.md")).unwrap();
    use_case.execute(modified("test-loom", "editor", "/work/file-b.md")).unwrap();

    let contexts = &use_case.agent_runner.captured;
    assert_eq!(contexts.len(), 2);
    let name1 = find_name_value(&contexts[0].cli_args).expect("first call should have --name");
    let name2 = find_name_value(&contexts[1].cli_args).expect("second call should have --name");
    assert_eq!(name1, "editor triggered by Modified on file-a.md");
    assert_eq!(name2, "editor triggered by Modified on file-b.md");
    assert_ne!(name1, name2, "titles should differ per strand");
}

#[test]
fn process_strand_prompt_content_unchanged_by_name_flag() {
    let knot = Knot {
        prompt_template: PromptTemplate { instructions: "Review this file.".to_string() },
        ..build_knot("editor", "editor")
    };
    let mut use_case = build_with(
        build_loom("test-loom", vec![knot]),
        ConfigurableAgentRunner::new(Ok(output("mock output"))),
        vec![profile("editor", "openai", "gpt-4o", "You are an editor.")],
        every_file_is_text(),
    );
    use_case.execute(modified("test-loom", "editor", "/work/doc.md")).unwrap();

    let ctx = &use_case.agent_runner.captured[0];
    assert_eq!(ctx.profile_prompt, "You are an editor.");
    assert_eq!(ctx.prompt, "Review this file.");
    assert_eq!(ctx.event_type, "Modified");
    assert_eq!(ctx.knot_name.as_deref(), Some("editor"));
    assert!(ctx.cli_args.contains(&"--name".to_string()));
    assert!(!ctx.prompt.contains("--name"));
    assert!(!ctx.profile_prompt.contains("--name"));
}

// ── What stands at the strand's path ───────────────────────────────────

fn on_disk(files: Vec<(&str, Vec<u8>)>) -> Strands {
    let knot = Knot { git_versioned: false, ..build_knot("k1", "fast") };
    build_with(
        build_loom("test-loom", vec![knot]),
        ConfigurableAgentRunner::new(Ok(output("mock output"))),
        vec![default_profile()],
        disk(files),
    )
}

fn assert_processed(use_case: &Strands) {
    let events = &use_case.log_port.events;
    assert_eq!(events.len(), 3, "got: {events:?}");
    match &events[0] {
        LoomEvent::KnotProcessing { .. } => {}
        other => panic!("expected KnotProcessing, got {other:?}"),
    }
    match &events[1] {
        LoomEvent::KnotCompleted { .. } => {}
        other => panic!("expected KnotCompleted, got {other:?}"),
    }
    match &events[2] {
        LoomEvent::StrandProcessed { error, .. } => assert!(error.is_none()),
        other => panic!("expected StrandProcessed, got {other:?}"),
    }
    assert_eq!(use_case.agent_runner.captured.len(), 1);
    assert_eq!(use_case.tie_off_sink.appends.len(), 1, "tie-off should be appended");
    assert_eq!(use_case.tie_off_sink.appends[0].status, TieOffStatus::Produced);
}

#[test]
fn binary_file_creates_strand_ignored_event() {
    let mut use_case = on_disk(vec![("/work/data.bin", vec![0x00, 0x01, 0x02, 0xFF, 0xFE])]);
    assert!(use_case.execute(created("test-loom", "k1", "/work/data.bin")).is_ok());

    let events = &use_case.log_port.events;
    assert_eq!(events.len(), 1, "should have exactly 1 event");
    match &events[0] {
        LoomEvent::StrandIgnored { loom_id, knot_id, strand_path, reason, .. } => {
            assert_eq!(loom_id.0, "test-loom");
            assert_eq!(knot_id.0, "k1");
            assert_eq!(strand_path.0, "/work/data.bin");
            assert_eq!(reason, "binary file");
        }
        other => panic!("expected StrandIgnored for binary file, got {:?}", other),
    }
    assert!(use_case.tie_off_sink.appends.is_empty());
}

#[test]
fn text_file_normal_processing_path() {
    let mut use_case = on_disk(vec![("/work/hello.txt", b"Hello, world!\n".to_vec())]);
    assert!(use_case.execute(created("test-loom", "k1", "/work/hello.txt")).is_ok());
    assert_processed(&use_case);
}

#[test]
fn deleted_event_skips_text_check() {
    let mut use_case = on_disk(vec![]);
    assert!(use_case.execute(deleted("test-loom", "k1", "/nonexistent/path/file.txt")).is_ok());
    let ignored =
        use_case.log_port.events.iter().any(|e| matches!(e, LoomEvent::StrandIgnored { .. }));
    assert!(!ignored, "Deleted event should NOT produce StrandIgnored");
    assert_processed(&use_case);
}

#[test]
fn binary_file_modified_event_strand_ignored() {
    let png = vec![0x89, 0x50, 0x4E, 0x47, 0x0D, 0x0A, 0x1A, 0x0A, 0x00, 0x00, 0x00, 0x00];
    let mut use_case = on_disk(vec![("/work/image.png", png)]);
    assert!(use_case.execute(modified("test-loom", "k1", "/work/image.png")).is_ok());

    let events = &use_case.log_port.events;
    assert_eq!(events.len(), 1);
    match &events[0] {
        LoomEvent::StrandIgnored { strand_path, reason, .. } => {
            assert_eq!(strand_path.0, "/work/image.png");
            assert_eq!(reason, "binary file");
        }
        other => panic!("expected StrandIgnored on Modified, got {:?}", other),
    }
}

#[test]
fn empty_file_treated_as_text() {
    let mut use_case = on_disk(vec![("/work/empty.txt", vec![])]);
    assert!(use_case.execute(created("test-loom", "k1", "/work/empty.txt")).is_ok());
    assert_processed(&use_case);
}

fn assert_left_alone(use_case: &Strands) {
    assert!(use_case.agent_runner.captured.is_empty(), "agent runner should NOT be called");
    assert!(use_case.tie_off_sink.appends.is_empty(), "no tie-off should be written");
}

#[test]
fn known_temp_file_skipped_silently_on_created() {
    let mut use_case = on_disk(vec![]);
    assert!(use_case.execute(created("test-loom", "k1", "/work/sedXXXXXXX")).is_ok());
    assert!(use_case.log_port.events.is_empty());
    assert_left_alone(&use_case);
}

#[test]
fn known_temp_file_skipped_silently_on_modified() {
    let mut use_case = on_disk(vec![]);
    assert!(use_case.execute(modified("test-loom", "k1", "/work/sedAbCdEfG")).is_ok());
    assert!(use_case.log_port.events.is_empty());
    assert_left_alone(&use_case);
}

#[test]
fn unknown_missing_file_logs_strand_skipped() {
    let mut use_case = on_disk(vec![]);
    assert!(use_case.execute(created("test-loom", "k1", "/work/does_not_exist.md")).is_ok());

    let events = &use_case.log_port.events;
    assert_eq!(events.len(), 1, "should have exactly one loom-log event");
    match &events[0] {
        LoomEvent::StrandSkipped { strand_path, reason, .. } => {
            assert_eq!(strand_path.0, "/work/does_not_exist.md");
            assert_eq!(reason, "missing file (unknown pattern)");
        }
        other => panic!("expected StrandSkipped for missing file, got {:?}", other),
    }
    assert_left_alone(&use_case);
}

#[test]
fn existing_file_passes_through_to_processing() {
    let mut use_case = on_disk(vec![("/work/real_file.md", b"real content".to_vec())]);
    assert!(use_case.execute(created("test-loom", "k1", "/work/real_file.md")).is_ok());
    assert_processed(&use_case);
}

#[test]
fn deleted_events_skip_existence_check() {
    let mut use_case = on_disk(vec![]);
    assert!(use_case.execute(deleted("test-loom", "k1", "/work/was_here.md")).is_ok());
    assert_processed(&use_case);
}

// ── Events that name nothing ───────────────────────────────────────────

#[test]
fn an_event_for_an_unknown_loom_or_knot_fails() {
    let mut use_case = deleting();
    match use_case.execute(created("other", "k1", "/work/a.md")).unwrap_err() {
        PortError::LoomNotFound(id) => assert_eq!(id.0, "other"),
        other => panic!("expected LoomNotFound, got {other:?}"),
    }
    assert!(use_case.execute(created("test-loom", "k9", "/work/a.md")).is_err());
    assert!(use_case.log_port.events.is_empty());
    assert_left_alone(&use_case);
}

#[test]
fn a_failed_run_is_not_committed() {
    let loom = build_loom("test-loom", vec![build_knot("k1", "fast")]);
    let runner = ConfigurableAgentRunner::new(Err(PortError::AgentExecutionFailed {
        message: "crash".to_string(),
        session_id: None,
    }));
    let mut use_case = build_process_strand(loom, runner);
    assert!(use_case.execute(created("test-loom", "k1", "/work/a.md")).is_ok());
    assert!(use_case.git_versioning_port.commits.is_empty());
    assert_eq!(use_case.tie_off_sink.appends[0].status, TieOffStatus::Failed);
}

#[test]
fn a_missing_profile_is_tied_off_and_returned() {
    let mut use_case = build_with(
        build_loom("test-loom", vec![build_knot("k1", "nobody")]),
        ConfigurableAgentRunner::new(Ok(output("unused"))),
        vec![default_profile()],
        every_file_is_text(),
    );
    match use_case.execute(created("test-loom", "k1", "/work/a.md")).unwrap_err() {
        PortError::ProfileNotFound(name) => assert_eq!(name, "nobody"),
        other => panic!("expected ProfileNotFound, got {other:?}"),
    }
    assert!(use_case.agent_runner.captured.is_empty());
    assert_eq!(use_case.tie_off_sink.appends[0].status, TieOffStatus::Failed);
    assert!(use_case.tie_off_sink.appends[0].content.starts_with("Processing failed: "));
}

#[test]
fn a_tie_off_file_is_only_appended_to() {
    let mut use_case = build_process_strand(
        build_loom("test-loom", vec![build_knot("k1", "fast")]),
        ConfigurableAgentRunner::new_sequence(vec![
            Ok(output("one")),
            Err(PortError::CommandNotFound("pi".to_string())),
            Ok(output("three")),
        ]),
    );
    assert!(use_case.execute(created("test-loom", "k1", "/work/a.md")).is_ok());
    assert!(use_case.execute(modified("test-loom", "k1", "/work/a.md")).is_ok());
    assert!(use_case.execute(deleted("test-loom", "k1", "/work/a.md")).is_ok());
    let contents: Vec<&str> =
        use_case.tie_off_sink.appends.iter().map(|t| t.content.as_str()).collect();
    assert_eq!(contents.len(), 3);
    assert_eq!(contents[0], "one");
    assert!(contents[1].starts_with("Processing failed: "));
    assert_eq!(contents[2], "three");
    assert_eq!(use_case.tie_off_sink.writes, 0);
}
