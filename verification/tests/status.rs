//! Knot status and the state snapshot.

use knot::entities::{
    AgentProfile, Knot, KnotId, Loom, LoomId, PromptTemplate, StrandPath, TieOffPath,
};
use knot::errors::PortError;
use knot::events::LoomEvent;
use knot::ports::{AgentProfileRepository, LoomLogPort, ProcessingStatus, StateWriterPort};
use knot::rig_state::RigState;
use knot::store::LoomStore;
use knot::usecases::{format_timestamp, GetKnotStatus, WriteState};
use std::collections::HashMap;

#[derive(Default)]
struct MockLoomLog {
    events: HashMap<String, Vec<LoomEvent>>,
    broken: bool,
}

impl LoomLogPort for MockLoomLog {
    fn open(&mut self, _loom_id: &LoomId) -> Result<(), PortError> {
        Ok(())
    }

    fn append(&mut self, _event: LoomEvent) -> Result<(), PortError> {
        Ok(())
    }

    fn read_all(&mut self, loom_id: &LoomId) -> Result<Vec<LoomEvent>, PortError> {
        if self.broken {
            return Err(PortError::LoomLogReadFailed("gone".to_string()));
        }
        Ok(self.events.get(&loom_id.0).cloned().unwrap_or_default())
    }
}

#[derive(Default)]
struct MockProfileRepo {
    profiles: Vec<AgentProfile>,
    broken: bool,
}

impl AgentProfileRepository for MockProfileRepo {
    fn get(&mut self, name: &str) -> Result<Option<AgentProfile>, PortError> {
        Ok(self.profiles.iter().find(|p| p.name == name).cloned())
    }

    fn list(&mut self) -> Result<Vec<AgentProfile>, PortError> {
        if self.broken {
            return Err(PortError::ProfileNotFound("profiles".to_string()));
        }
        Ok(self.profiles.clone())
    }
}

#[derive(Default)]
struct MockStateWriter {
    writes: Vec<RigState>,
}

impl StateWriterPort for MockStateWriter {
    fn write_state(&mut self, state: &RigState) -> Result<(), PortError> {
        self.writes.push(state.clone());
        Ok(())
    }
}

fn test_loom(id: &str) -> Loom {
    Loom {
        id: LoomId(id.to_string()),
        knots: vec![Knot {
            id: KnotId("k1".to_string()),
            agent_profile_ref: "fast".to_string(),
            prompt_template: PromptTemplate { instructions: "Review.".to_string() },
            strand_dir: "strands".to_string(),
            git_versioned: true,
        }],
    }
}

fn fast_profile(prompt: &str) -> AgentProfile {
    AgentProfile {
        name: "fast".to_string(),
        provider: "openai".to_string(),
        model: "gpt-4o".to_string(),
        tools: vec![],
        profile_prompt: prompt.to_string(),
        timeout: None,
    }
}

fn build_use_case(
    looms: &[&str],
    log: MockLoomLog,
    profiles: Vec<AgentProfile>,
) -> WriteState<MockLoomLog, MockProfileRepo, MockStateWriter> {
    let mut store = LoomStore::new();
    for id in looms {
        store.register(test_loom(id));
    }
    WriteState::new(
        store,
        log,
        MockProfileRepo { profiles, broken: false },
        MockStateWriter::default(),
        "/test/rig".to_string(),
    )
}

fn log_of(loom: &str, events: Vec<LoomEvent>) -> MockLoomLog {
    MockLoomLog { events: HashMap::from([(loom.to_string(), events)]), broken: false }
}

fn registered(timestamp: &str) -> LoomEvent {
    LoomEvent::KnotRegistered {
        loom_id: LoomId("prds".to_string()),
        knot_id: KnotId("k1".to_string()),
        timestamp: timestamp.to_string(),
    }
}

fn processing(strand: &str, timestamp: &str) -> LoomEvent {
    LoomEvent::KnotProcessing {
        loom_id: LoomId("prds".to_string()),
        knot_id: KnotId("k1".to_string()),
        strand_path: StrandPath(strand.to_string()),
        timestamp: timestamp.to_string(),
    }
}

fn completed(strand: &str, tie_off: &str, timestamp: &str) -> LoomEvent {
    LoomEvent::KnotCompleted {
        loom_id: LoomId("prds".to_string()),
        knot_id: KnotId("k1".to_string()),
        strand_path: StrandPath(strand.to_string()),
        tie_off_path: TieOffPath(tie_off.to_string()),
        timestamp: timestamp.to_string(),
    }
}

fn failed(strand: &str, error: &str, timestamp: &str) -> LoomEvent {
    LoomEvent::KnotFailed {
        loom_id: LoomId("prds".to_string()),
        knot_id: KnotId("k1".to_string()),
        strand_path: StrandPath(strand.to_string()),
        error: error.to_string(),
        timestamp: timestamp.to_string(),
    }
}

#[test]
fn build_state_empty_rig() {
    let mut uc = build_use_case(&[], MockLoomLog::default(), vec![]);
    let state = uc.build_state().unwrap();
    assert_eq!(state.rig_path, "/test/rig");
    assert!(state.looms.is_empty());
    assert!(state.profiles.is_empty());
}

#[test]
fn build_state_with_looms_and_profiles() {
    let mut uc =
        build_use_case(&["prds"], MockLoomLog::default(), vec![fast_profile("You are fast.")]);
    let state = uc.build_state().unwrap();
    assert_eq!(state.looms.len(), 1);
    assert_eq!(state.looms[0].id, "prds");
    assert_eq!(state.looms[0].knots.len(), 1);
    assert_eq!(state.looms[0].knots[0].id, "k1");
    assert_eq!(state.looms[0].knots[0].status, "idle");
    assert_eq!(state.profiles.len(), 1);
    assert_eq!(state.profiles[0].name, "fast");
    assert_eq!(state.profiles[0].provider.as_deref(), Some("openai"));
    assert_eq!(state.profiles[0].model.as_deref(), Some("gpt-4o"));
}

#[test]
fn derive_knot_status_idle_from_registration() {
    let log = log_of("prds", vec![registered("2026-06-18T10:00:00Z")]);
    let state = build_use_case(&["prds"], log, vec![]).build_state().unwrap();
    let knot = &state.looms[0].knots[0];
    assert_eq!(knot.status, "idle");
    assert_eq!(knot.last_event_at, Some("2026-06-18T10:00:00Z".to_string()));
}

#[test]
fn derive_knot_status_completed_from_log() {
    let log = log_of(
        "prds",
        vec![
            registered("2026-06-18T10:00:00Z"),
            completed("input.md", "output.md", "2026-06-18T10:05:00Z"),
        ],
    );
    let state = build_use_case(&["prds"], log, vec![]).build_state().unwrap();
    let knot = &state.looms[0].knots[0];
    assert_eq!(knot.status, "completed");
    assert_eq!(knot.last_strand_path, Some("input.md".to_string()));
    assert_eq!(knot.last_tie_off_path, Some("output.md".to_string()));
}

#[test]
fn derive_knot_status_failed_from_log() {
    let log = log_of(
        "prds",
        vec![
            registered("2026-06-18T10:00:00Z"),
            failed("input.md", "timeout", "2026-06-18T10:05:00Z"),
        ],
    );
    let state = build_use_case(&["prds"], log, vec![]).build_state().unwrap();
    let knot = &state.looms[0].knots[0];
    assert_eq!(knot.status, "failed");
    assert_eq!(knot.last_error, Some("timeout".to_string()));
}

#[test]
fn derive_knot_status_processing_from_log() {
    let log = log_of(
        "prds",
        vec![
            registered("2026-06-18T10:00:00Z"),
            processing("input.md", "2026-06-18T10:01:00Z"),
        ],
    );
    let state = build_use_case(&["prds"], log, vec![]).build_state().unwrap();
    let knot = &state.looms[0].knots[0];
    assert_eq!(knot.status, "processing");
    assert_eq!(knot.last_strand_path, Some("input.md".to_string()));
}

#[test]
fn derive_knot_status_latest_event_wins() {
    let log = log_of(
        "prds",
        vec![
            completed("a.md", "out-a.md", "2026-06-18T10:00:00Z"),
            failed("b.md", "boom", "2026-06-18T10:05:00Z"),
        ],
    );
    let state = build_use_case(&["prds"], log, vec![]).build_state().unwrap();
    let knot = &state.looms[0].knots[0];
    assert_eq!(knot.status, "failed");
    assert_eq!(knot.last_strand_path, Some("b.md".to_string()));
}

#[test]
fn execute_builds_and_writes_state() {
    let mut uc = build_use_case(&["prds"], MockLoomLog::default(), vec![fast_profile("Fast.")]);
    uc.execute().unwrap();
    let written = uc.state_writer.writes.last().unwrap();
    assert_eq!(written.rig_path, "/test/rig");
    assert_eq!(written.looms.len(), 1);
    assert_eq!(written.profiles.len(), 1);
}

#[test]
fn execute_handles_log_port_error_gracefully() {
    let mut uc = build_use_case(&["prds"], MockLoomLog::default(), vec![]);
    assert!(uc.execute().is_ok());

    let broken = MockLoomLog { broken: true, ..MockLoomLog::default() };
    let mut uc = build_use_case(&["prds"], broken, vec![]);
    assert!(uc.execute().is_ok());
    assert_eq!(uc.state_writer.writes[0].looms[0].knots[0].status, "idle");
}

#[test]
fn multiple_looms_in_state() {
    let mut uc = build_use_case(&["prds", "docs"], MockLoomLog::default(), vec![]);
    uc.execute().unwrap();
    let written = uc.state_writer.writes.last().unwrap();
    let ids: Vec<_> = written.looms.iter().map(|l| &l.id).collect();
    assert!(ids.contains(&&"prds".to_string()));
    assert!(ids.contains(&&"docs".to_string()));
}

#[test]
fn profiles_that_cannot_be_listed_fail_the_snapshot() {
    let mut uc = build_use_case(&["prds"], MockLoomLog::default(), vec![]);
    uc.profile_repo.broken = true;
    assert!(matches!(uc.execute(), Err(PortError::ProfileNotFound(_))));
    assert!(uc.state_writer.writes.is_empty());
}

fn status_of(log: MockLoomLog) -> GetKnotStatus<MockLoomLog> {
    let mut store = LoomStore::new();
    store.register(test_loom("prds"));
    GetKnotStatus::new(store, log)
}

#[test]
fn knot_status_follows_the_log() {
    let loom = LoomId("prds".to_string());
    let knot = KnotId("k1".to_string());

    let log = log_of("prds", vec![registered("t0")]);
    let idle = status_of(log).execute(&loom, &knot).unwrap();
    assert_eq!(idle.status, ProcessingStatus::Idle);
    assert_eq!(idle.last_strand_path, None);

    let log = log_of("prds", vec![registered("t0"), processing("a.md", "t1")]);
    let busy = status_of(log).execute(&loom, &knot).unwrap();
    assert_eq!(busy.status, ProcessingStatus::Processing);
    assert_eq!(busy.last_strand_path, Some(StrandPath("a.md".to_string())));

    let log = log_of("prds", vec![failed("a.md", "boom", "t1"), completed("b.md", "out.md", "t2")]);
    let done = status_of(log).execute(&loom, &knot).unwrap();
    assert_eq!(done.status, ProcessingStatus::Completed);
    assert_eq!(done.last_strand_path, Some(StrandPath("b.md".to_string())));
    assert_eq!(done.last_tie_off_path, Some(TieOffPath("out.md".to_string())));
}

fn assert_not_derived(log: MockLoomLog, loom: &str, knot: &str, expected: &str) {
    let result = status_of(log).execute(&LoomId(loom.to_string()), &KnotId(knot.to_string()));
    match result.unwrap_err() {
        PortError::KnotStatusDeriveFailed(msg) => assert_eq!(msg, expected),
        other => panic!("Expected KnotStatusDeriveFailed, got {other:?}"),
    }
}

#[test]
fn knot_status_needs_a_loom_a_log_and_an_event() {
    assert_not_derived(MockLoomLog::default(), "docs", "k1", "loom 'docs' not found");
    assert_not_derived(
        MockLoomLog { broken: true, ..MockLoomLog::default() },
        "prds",
        "k1",
        "failed to read loom-log for loom 'prds'",
    );
    assert_not_derived(
        log_of("prds", vec![registered("t0")]),
        "prds",
        "k9",
        "no events found for knot 'k9' in loom 'prds'",
    );
}

#[test]
fn snapshot_agrees_with_knot_status() {
    let events = vec![processing("a.md", "t1"), failed("a.md", "boom", "t2")];
    let status = status_of(log_of("prds", events.clone()))
        .execute(&LoomId("prds".to_string()), &KnotId("k1".to_string()))
        .unwrap();
    let state = build_use_case(&["prds"], log_of("prds", events), vec![]).build_state().unwrap();
    let knot = &state.looms[0].knots[0];
    assert_eq!(status.status, ProcessingStatus::Failed);
    assert_eq!(knot.status, "failed");
    assert_eq!(knot.last_error, status.last_error);
    assert_eq!(knot.last_strand_path, status.last_strand_path.map(|p| p.0));
}

#[test]
fn timestamps_are_utc_to_the_second() {
    let stamp = format_timestamp();
    let bytes = stamp.as_bytes();
    assert_eq!(stamp.len(), 20, "got: {stamp}");
    for (i, b) in bytes.iter().enumerate() {
        match i {
            4 | 7 => assert_eq!(*b, b'-'),
            10 => assert_eq!(*b, b'T'),
            13 | 16 => assert_eq!(*b, b':'),
            19 => assert_eq!(*b, b'Z'),
            _ => assert!(b.is_ascii_digit(), "got: {stamp}"),
        }
    }
    assert!(stamp.as_str() > "2024-01-01T00:00:00Z");
}
