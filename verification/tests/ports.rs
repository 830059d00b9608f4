//! Every port can be implemented outside the library, and used through a trait
//! object.

use knot::entities::{
    AgentConfig, AgentProfile, Knot, KnotId, Loom, LoomId, StrandPath, TieOff, TieOffPath,
    TieOffStatus,
};
use knot::errors::PortError;
use knot::events::{LoomEvent, RigLogEvent};
use knot::ports::{
    manual_compact_unsupported, AgentOutput, AgentProfileRepository, AgentRunner,
    CompactionRecord, EventSource, ExecutionContext, GitVersioningPort, LoomLogPort,
    LoomRepository, ModelAlias, ModelRegistry, ModelRegistryPort, RigLogPort, StateWriterPort,
    TieOffSink, WatchType,
};
use knot::rig_state::RigState;
use knot::time::TimeSpan;
use std::collections::HashMap;

#[derive(Default)]
struct MockLoomRepository {
    looms: HashMap<String, Loom>,
}

impl LoomRepository for MockLoomRepository {
    fn scan(&mut self, _rig: &str) -> Result<(Vec<Loom>, Vec<String>), PortError> {
        Ok((self.looms.values().cloned().collect(), Vec::new()))
    }

    fn scan_knot_files(&mut self, _loom_dir: &str) -> Result<(Vec<Knot>, Vec<String>), PortError> {
        Ok((vec![], vec![]))
    }

    fn get(&mut self, id: &LoomId) -> Result<Option<Loom>, PortError> {
        Ok(self.looms.get(&id.0).cloned())
    }

    fn list(&mut self) -> Result<Vec<Loom>, PortError> {
        Ok(self.looms.values().cloned().collect())
    }

    fn save(&mut self, _loom: Loom) -> Result<(), PortError> {
        Ok(())
    }
}

#[derive(Default)]
struct MockLoomLogPort {
    events: Vec<LoomEvent>,
}

impl LoomLogPort for MockLoomLogPort {
    fn open(&mut self, _loom_id: &LoomId) -> Result<(), PortError> {
        Ok(())
    }

    fn append(&mut self, _event: LoomEvent) -> Result<(), PortError> {
        Ok(())
    }

    fn read_all(&mut self, _loom_id: &LoomId) -> Result<Vec<LoomEvent>, PortError> {
        Ok(self.events.clone())
    }
}

struct MockEventSource;

impl EventSource for MockEventSource {
    fn watch(&mut self, _path: &str) -> Result<(), PortError> {
        Ok(())
    }

    fn unwatch(&mut self, _path: &str) -> Result<(), PortError> {
        Ok(())
    }

    fn unwatch_with_type(&mut self, path: &str, _watch_type: WatchType) -> Result<(), PortError> {
        self.unwatch(path)
    }

    fn set_loom_ids(&mut self, _source_dir: &str, _loom_id: &LoomId, _knot_id: &KnotId) {}

    fn register_watch(&mut self, _path: String, _watch_type: WatchType) {}
}

struct MockAgentRunner;

impl AgentRunner for MockAgentRunner {
    fn execute(&mut self, _ctx: ExecutionContext) -> Result<AgentOutput, PortError> {
        Ok(AgentOutput {
            stdout: "mock output".to_string(),
            stderr: String::new(),
            exit_code: 0,
            metadata: None,
        })
    }

    fn execute_with_config(
        &mut self,
        agent_config: &AgentConfig,
        strand_path: StrandPath,
        _strand_file_ref: Option<StrandPath>,
        prompt: String,
        profile_prompt: String,
        event_type: String,
        knot_name: Option<String>,
        timeout: Option<TimeSpan>,
    ) -> Result<AgentOutput, PortError> {
        self.execute(ExecutionContext {
            agent_config: agent_config.clone(),
            prompt,
            profile_prompt,
            strand_path,
            event_type,
            knot_name,
            timeout,
        })
    }

    fn manual_compact(
        &mut self,
        _ctx: &ExecutionContext,
        session_id: &str,
        _custom_instructions: &str,
    ) -> Result<CompactionRecord, PortError> {
        Err(manual_compact_unsupported(session_id))
    }
}

#[derive(Default)]
struct MockTieOffSink {
    content: HashMap<String, String>,
}

impl TieOffSink for MockTieOffSink {
    fn write(&mut self, tie_off: TieOff) -> Result<(), PortError> {
        self.content.insert(tie_off.path.0, tie_off.content);
        Ok(())
    }

    fn append(&mut self, tie_off: TieOff) -> Result<(), PortError> {
        self.write(tie_off)
    }

    fn read_content(&mut self, path: &TieOffPath) -> Result<String, PortError> {
        Ok(self.content.get(&path.0).cloned().unwrap_or_default())
    }
}

#[derive(Default)]
struct MockRigLogPort {
    events: Vec<RigLogEvent>,
}

impl RigLogPort for MockRigLogPort {
    fn append(&mut self, event: RigLogEvent) -> Result<(), PortError> {
        self.events.push(event);
        Ok(())
    }

    fn read_all(&mut self) -> Result<Vec<RigLogEvent>, PortError> {
        Ok(self.events.clone())
    }
}

#[derive(Default)]
struct MockAgentProfileRepository {
    profiles: Vec<AgentProfile>,
}

impl AgentProfileRepository for MockAgentProfileRepository {
    fn get(&mut self, name: &str) -> Result<Option<AgentProfile>, PortError> {
        Ok(self.profiles.iter().find(|p| p.name == name).cloned())
    }

    fn list(&mut self) -> Result<Vec<AgentProfile>, PortError> {
        Ok(self.profiles.clone())
    }
}

struct MockModelRegistry {
    models: Vec<ModelAlias>,
}

impl ModelRegistryPort for MockModelRegistry {
    fn load(&mut self) -> Result<ModelRegistry, PortError> {
        Ok(ModelRegistry { models: self.models.clone() })
    }
}

#[derive(Default)]
struct MockGitVersioningPort {
    commits: Vec<(LoomId, KnotId, String, String, String)>,
}

impl GitVersioningPort for MockGitVersioningPort {
    fn commit(
        &mut self,
        loom_id: &LoomId,
        knot_id: &KnotId,
        strand_path: &StrandPath,
        event_type: &str,
        tie_off_content: &str,
    ) -> Result<(), PortError> {
        self.commits.push((
            loom_id.clone(),
            knot_id.clone(),
            strand_path.0.clone(),
            event_type.to_string(),
            tie_off_content.to_string(),
        ));
        Ok(())
    }

    fn ensure_rig_repo(&mut self, _rig_dir: &str) -> Result<(), PortError> {
        Ok(())
    }
}

#[derive(Default)]
struct MockStateWriter {
    writes: Vec<RigState>,
}

impl StateWriterPort for MockStateWriter {
    fn write_state(&mut self, state: &RigState) -> Result<(), PortError> {
        self.writes.push(state.clone());
        Ok(())
    }
}

#[test]
fn loom_repository_contract() {
    let mut repo = MockLoomRepository::default();
    let obj: &mut dyn LoomRepository = &mut repo;

    let (looms, warnings) = obj.scan("/tmp/rig").unwrap();
    assert!(looms.is_empty());
    assert!(warnings.is_empty());

    let loom_id = LoomId("test".to_string());
    let get_result = obj.get(&loom_id);
    assert!(get_result.is_ok());
    assert!(get_result.unwrap().is_none());

    let list_result = obj.list();
    assert!(list_result.is_ok());
    assert!(list_result.unwrap().is_empty());

    let loom = Loom { id: LoomId("save-test-loom".to_string()), knots: vec![] };
    let save_result = obj.save(loom);
    assert!(save_result.is_ok());
}

#[test]
fn loom_log_port_contract() {
    let mut port = MockLoomLogPort::default();
    let obj: &mut dyn LoomLogPort = &mut port;
    let loom_id = LoomId("log-test".to_string());

    assert!(obj.open(&loom_id).is_ok());
    let event = LoomEvent::LoomStarted {
        loom_id: loom_id.clone(),
        timestamp: "2026-06-10T12:00:00Z".to_string(),
    };
    assert!(obj.append(event).is_ok());
    assert!(obj.read_all(&loom_id).is_ok());
}

#[test]
fn agent_runner_contract() {
    let mut runner = MockAgentRunner;
    let obj: &mut dyn AgentRunner = &mut runner;

    let ctx = ExecutionContext {
        agent_config: AgentConfig {
            goal: "review".to_string(),
            provider: "openai".to_string(),
            model: "gpt-4o".to_string(),
            tools: vec![],
            extra_args: vec![],
            thinking_level: None,
            ctx_wrap_up_limit: None,
        },
        prompt: "Review this document".to_string(),
        profile_prompt: "You are an editor.".to_string(),
        strand_path: StrandPath("doc.md".to_string()),
        event_type: "Created".to_string(),
        knot_name: Some("review".to_string()),
        timeout: None,
    };
    let result = obj.execute(ctx);
    assert!(result.is_ok());

    let output = result.unwrap();
    assert_eq!(output.exit_code, 0);
    assert!(!output.stdout.is_empty());
}

#[test]
fn tieoff_sink_contract() {
    let mut sink = MockTieOffSink::default();
    let obj: &mut dyn TieOffSink = &mut sink;

    let tie_off = TieOff {
        content: "Generated content".to_string(),
        path: TieOffPath("output/review.md".to_string()),
        status: TieOffStatus::Produced,
        knot_name: None,
        event_type: None,
        strand_path: None,
        timestamp: None,
    };
    assert!(obj.write(tie_off).is_ok());
}

#[test]
fn event_source_contract() {
    let mut source = MockEventSource;
    let obj: &mut dyn EventSource = &mut source;
    let path = "/tmp/watched";

    assert!(obj.watch(path).is_ok());
    assert!(obj.unwatch(path).is_ok());
    assert!(obj
        .unwatch_with_type(
            path,
            WatchType::Strand(LoomId("test".into()), KnotId("test".into())),
        )
        .is_ok());
}

#[test]
fn rig_log_port_contract() {
    let mut port = MockRigLogPort::default();
    let obj: &mut dyn RigLogPort = &mut port;

    let event = RigLogEvent::QueueIdle { timestamp: "2026-06-14T10:00:00Z".to_string() };
    assert!(obj.append(event.clone()).is_ok());

    let events = obj.read_all().unwrap();
    assert_eq!(events.len(), 1);
    assert_eq!(events[0], event);

    let event2 = RigLogEvent::TimeoutExceeded {
        loom_id: LoomId("test".to_string()),
        knot_id: KnotId("k1".to_string()),
        strand_path: StrandPath("input.md".to_string()),
        error: "deadline exceeded".to_string(),
        timestamp: "2026-06-14T10:01:00Z".to_string(),
    };
    assert!(obj.append(event2).is_ok());
    assert_eq!(obj.read_all().unwrap().len(), 2);
}

#[test]
fn agent_profile_repository_contract() {
    let mut repo = MockAgentProfileRepository::default();
    let obj: &mut dyn AgentProfileRepository = &mut repo;

    let get_result = obj.get("nonexistent");
    assert!(get_result.is_ok());
    assert!(get_result.unwrap().is_none());

    let list_result = obj.list();
    assert!(list_result.is_ok());
    assert!(list_result.unwrap().is_empty());
}

#[test]
fn model_registry_port_contract() {
    let fast = ModelAlias {
        alias: "fast".to_string(),
        provider: "openai".to_string(),
        model: "gpt-4o".to_string(),
    };
    let mut port = MockModelRegistry { models: vec![fast.clone()] };
    let obj: &mut dyn ModelRegistryPort = &mut port;

    let loaded = obj.load().unwrap();
    assert_eq!(loaded, ModelRegistry { models: vec![fast] });
    assert_eq!(loaded.resolve("fast").unwrap().model, "gpt-4o");
    assert!(loaded.resolve("slow").is_none());
}

#[test]
fn git_versioning_port_contract() {
    let mut port = MockGitVersioningPort::default();
    let loom_id = LoomId("test-loom".to_string());
    let knot_id = KnotId("k1".to_string());
    let strand = StrandPath("input/strand.md".to_string());
    {
        let obj: &mut dyn GitVersioningPort = &mut port;
        let result = obj.commit(&loom_id, &knot_id, &strand, "Created", "tie-off output here");
        assert!(result.is_ok());
    }

    assert_eq!(port.commits.len(), 1);
    let (lid, kid, sp, et, content) = &port.commits[0];
    assert_eq!(*lid, loom_id);
    assert_eq!(*kid, knot_id);
    assert_eq!(sp, "input/strand.md");
    assert_eq!(et, "Created");
    assert_eq!(content, "tie-off output here");
}

#[test]
fn state_writer_port_contract() {
    let mut writer = MockStateWriter::default();
    let state = RigState {
        rig_path: "/tmp/rig".to_string(),
        looms: vec![],
        profiles: vec![],
        strand_queue: vec![],
        updated_at: "2026-06-18T00:00:00Z".to_string(),
    };
    {
        let obj: &mut dyn StateWriterPort = &mut writer;
        assert!(obj.write_state(&state).is_ok());
    }

    assert_eq!(writer.writes.len(), 1);
    assert_eq!(writer.writes[0].rig_path, "/tmp/rig");
}

#[test]
fn compaction_without_support_is_refused() {
    let error = manual_compact_unsupported("sess-1");
    assert_eq!(
        error,
        PortError::ManualCompactionFailed {
            message: "manual compact on session 'sess-1' requires the pi-rpc adapter".to_string(),
            session_id: Some("sess-1".to_string()),
        }
    );
    assert!(!error.is_resumable());
    assert_eq!(MockAgentRunner.runner_type(), "unknown");
}
