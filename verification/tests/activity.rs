//! What happened in the current run, kept in memory.

use knot::activity::{InMemoryLoomLog, InMemoryRigLog, RunActivity};
use knot::entities::{KnotId, LoomId, StrandPath, TieOffPath};
use knot::events::{LoomEvent, RigLogEvent};
use knot::ports::{LoomLogPort, RigLogPort};

fn ts() -> String {
    "2026-09-07T10:00:00+00:00".into()
}

fn p(s: &str) -> String {
    s.to_string()
}

fn loom_started(loom: &str) -> LoomEvent {
    LoomEvent::LoomStarted { loom_id: LoomId(loom.to_string()), timestamp: ts() }
}

fn knot_completed(loom: &str, knot: &str) -> LoomEvent {
    LoomEvent::KnotCompleted {
        loom_id: LoomId(loom.to_string()),
        knot_id: KnotId(knot.to_string()),
        strand_path: StrandPath(p("strands/prd.md")),
        tie_off_path: TieOffPath(p("tie-offs/rig/prd.md")),
        timestamp: ts(),
    }
}

#[test]
fn loom_events_are_keyed_per_loom() {
    let mut activity = RunActivity::new();
    activity.append_loom("a-loom", loom_started("a-loom"));
    activity.append_loom("a-loom", knot_completed("a-loom", "k"));
    activity.append_loom("b-loom", loom_started("b-loom"));

    assert_eq!(activity.loom_events("a-loom").len(), 2);
    assert_eq!(activity.loom_events("b-loom").len(), 1);
    assert!(activity.loom_events("c-loom").is_empty());
    let events = activity.loom_events("a-loom");
    assert!(matches!(events[0], LoomEvent::LoomStarted { .. }));
    assert!(matches!(events[1], LoomEvent::KnotCompleted { .. }));
}

#[test]
fn rig_events_keep_append_order() {
    let mut activity = RunActivity::new();
    activity.append_rig(RigLogEvent::QueueIdle { timestamp: ts() });
    activity.append_rig(RigLogEvent::TimeoutExceeded {
        loom_id: LoomId("a-loom".into()),
        knot_id: KnotId("k".into()),
        strand_path: StrandPath(p("strands/prd.md")),
        error: "timed out".into(),
        timestamp: ts(),
    });
    let events = activity.rig_events();
    assert_eq!(events.len(), 2);
    assert!(matches!(events[0], RigLogEvent::QueueIdle { .. }));
    assert!(matches!(events[1], RigLogEvent::TimeoutExceeded { .. }));
}

#[test]
fn in_memory_loom_log_roundtrip() {
    let mut activity = RunActivity::new();
    let mut log = InMemoryLoomLog::new(&mut activity);
    let loom_id = LoomId("a-loom".into());

    log.open(&loom_id).unwrap();
    log.append(loom_started("a-loom")).unwrap();
    log.append(knot_completed("a-loom", "k")).unwrap();

    let events = log.read_all(&loom_id).unwrap();
    assert_eq!(events.len(), 2);
    assert!(matches!(events[1], LoomEvent::KnotCompleted { .. }));

    let other = LoomId("b-loom".into());
    assert!(log.read_all(&other).unwrap().is_empty());
}

#[test]
fn in_memory_rig_log_roundtrip() {
    let mut activity = RunActivity::new();
    let mut log = InMemoryRigLog::new(&mut activity);
    log.append(RigLogEvent::QueueIdle { timestamp: ts() }).unwrap();
    let events = log.read_all().unwrap();
    assert_eq!(events.len(), 1);
    assert!(matches!(events[0], RigLogEvent::QueueIdle { .. }));
}

#[test]
fn adapters_share_one_activity_store() {
    let mut activity = RunActivity::new();
    {
        let mut loom_log = InMemoryLoomLog::new(&mut activity);
        loom_log.append(knot_completed("a-loom", "k")).unwrap();
    }
    {
        let mut rig_log = InMemoryRigLog::new(&mut activity);
        rig_log.append(RigLogEvent::QueueIdle { timestamp: ts() }).unwrap();
    }

    assert_eq!(activity.loom_events("a-loom").len(), 1);
    assert_eq!(activity.rig_events().len(), 1);
}
