//! Config events: looms and knots that appear, change and go.

use knot::entities::{Knot, KnotId, Loom, LoomId, PromptTemplate};
use knot::errors::PortError;
use knot::events::{ConfigEvent, LoomEvent};
use knot::ports::{EventSource, LoomLogPort, LoomRepository, WatchType};
use knot::store::LoomStore;
use knot::usecases::{ConfigEventHandler, StrandDir};
use std::cell::RefCell;

/// An event source that notes every call.
#[derive(Default)]
struct TrackingEventSource {
    watches: Vec<String>,
    unwatches: Vec<String>,
    ids: Vec<(String, LoomId, KnotId)>,
    refuse_watch: bool,
}

impl EventSource for TrackingEventSource {
    fn watch(&mut self, path: &str) -> Result<(), PortError> {
        if self.refuse_watch {
            return Err(PortError::EventWatchFailed("no more watches".to_string()));
        }
        self.watches.push(path.to_string());
        Ok(())
    }

    fn unwatch(&mut self, path: &str) -> Result<(), PortError> {
        self.unwatches.push(path.to_string());
        Ok(())
    }

    fn set_loom_ids(&mut self, source_dir: &str, loom_id: &LoomId, knot_id: &KnotId) {
        self.ids.push((source_dir.to_string(), loom_id.clone(), knot_id.clone()));
    }

    fn unwatch_with_type(&mut self, path: &str, _watch_type: WatchType) -> Result<(), PortError> {
        self.unwatch(path)
    }

    fn register_watch(&mut self, _path: String, _watch_type: WatchType) {}
}

#[derive(Default)]
struct MockLoomLogPort {
    events: Vec<LoomEvent>,
}

impl LoomLogPort for MockLoomLogPort {
    fn open(&mut self, _loom_id: &LoomId) -> Result<(), PortError> {
        Ok(())
    }

    fn append(&mut self, event: LoomEvent) -> Result<(), PortError> {
        self.events.push(event);
        Ok(())
    }

    fn read_all(&mut self, _loom_id: &LoomId) -> Result<Vec<LoomEvent>, PortError> {
        Ok(self.events.clone())
    }
}

#[derive(Default)]
struct MockLoomRepository {
    scan_knots: Vec<Knot>,
    scan_error: Option<String>,
    scanned: Vec<String>,
}

impl LoomRepository for MockLoomRepository {
    fn scan(&mut self, _rig: &str) -> Result<(Vec<Loom>, Vec<String>), PortError> {
        Ok((vec![], vec![]))
    }

    fn scan_knot_files(&mut self, loom_dir: &str) -> Result<(Vec<Knot>, Vec<String>), PortError> {
        self.scanned.push(loom_dir.to_string());
        match &self.scan_error {
            Some(error) => Err(PortError::RigScanFailed(error.clone())),
            None => Ok((self.scan_knots.clone(), vec![])),
        }
    }

    fn get(&mut self, _id: &LoomId) -> Result<Option<Loom>, PortError> {
        Ok(None)
    }

    fn list(&mut self) -> Result<Vec<Loom>, PortError> {
        Ok(vec![])
    }

    fn save(&mut self, _loom: Loom) -> Result<(), PortError> {
        Ok(())
    }
}

/// The directories that are there.
struct Disk {
    dirs: RefCell<Vec<String>>,
}

impl Disk {
    fn with(dirs: &[&str]) -> Self {
        Disk { dirs: RefCell::new(dirs.iter().map(|d| d.to_string()).collect()) }
    }

    fn ensure(&self, dir: &String) -> StrandDir {
        if self.has(dir) {
            StrandDir::Existing
        } else {
            self.dirs.borrow_mut().push(dir.clone());
            StrandDir::Created
        }
    }

    fn has(&self, dir: &str) -> bool {
        self.dirs.borrow().iter().any(|d| d == dir)
    }
}

fn build_knot(id: &str) -> Knot {
    build_knot_with_strand_dir(id, "strands")
}

fn build_knot_with_strand_dir(id: &str, strand_dir: &str) -> Knot {
    Knot {
        id: KnotId(id.to_string()),
        agent_profile_ref: "fast".to_string(),
        prompt_template: PromptTemplate { instructions: "check it".to_string() },
        strand_dir: strand_dir.to_string(),
        git_versioned: true,
    }
}

fn build_loom(id: &str, knots: Vec<Knot>) -> Loom {
    Loom { id: loom_id(id), knots }
}

fn loom_id(id: &str) -> LoomId {
    LoomId(id.to_string())
}

fn knot_id(id: &str) -> KnotId {
    KnotId(id.to_string())
}

fn store_with(loom: Loom) -> LoomStore {
    let mut store = LoomStore::new();
    store.register(loom);
    store
}

fn scanning(knots: Vec<Knot>) -> MockLoomRepository {
    MockLoomRepository { scan_knots: knots, ..MockLoomRepository::default() }
}

/// What a handler left behind.
struct Outcome {
    result: Result<(), PortError>,
    repository: MockLoomRepository,
    events: Vec<LoomEvent>,
    store: LoomStore,
    source: TrackingEventSource,
}

fn handle_with(
    repository: MockLoomRepository,
    store: LoomStore,
    source: TrackingEventSource,
    rig_path: &str,
    disk: &Disk,
    event: ConfigEvent,
) -> Outcome {
    let mut handler = ConfigEventHandler::new(
        repository,
        MockLoomLogPort::default(),
        store,
        source,
        rig_path.to_string(),
        |dir: &String| disk.ensure(dir),
    );
    let result = handler.execute(event);
    Outcome {
        result,
        repository: handler.repository,
        events: handler.log_port.events,
        store: handler.store,
        source: handler.event_source,
    }
}

fn handle(store: LoomStore, disk: &Disk, event: ConfigEvent) -> Outcome {
    handle_with(
        MockLoomRepository::default(),
        store,
        TrackingEventSource::default(),
        "/rig",
        disk,
        event,
    )
}

fn assert_knot_registered(event: &LoomEvent, loom: &str, knot: &str) {
    match event {
        LoomEvent::KnotRegistered { loom_id: lid, knot_id, .. } => {
            assert_eq!(*lid, loom_id(loom));
            assert_eq!(knot_id.0, knot);
        }
        other => panic!("Expected KnotRegistered, got {other:?}"),
    }
}

#[test]
fn config_handler_loom_added() {
    let strand_dir = "/work/strands";
    let knots = vec![
        build_knot_with_strand_dir("k1", strand_dir),
        build_knot_with_strand_dir("k2", strand_dir),
    ];
    let disk = Disk::with(&["/work"]);
    let out = handle_with(
        scanning(knots),
        LoomStore::new(),
        TrackingEventSource::default(),
        "/work",
        &disk,
        ConfigEvent::LoomAdded {
            loom_id: loom_id("new-loom"),
            loom_dir: "/work/new-loom".to_string(),
        },
    );
    assert!(out.result.is_ok(), "should succeed: {:?}", out.result);

    let stored = out.store.get(&loom_id("new-loom")).unwrap();
    assert_eq!(stored.id, loom_id("new-loom"));
    assert_eq!(stored.knots.len(), 2);

    assert_eq!(out.events.len(), 4);
    assert_knot_registered(&out.events[0], "new-loom", "k1");
    assert_knot_registered(&out.events[1], "new-loom", "k2");
    match &out.events[2] {
        LoomEvent::LoomStarted { loom_id: lid, .. } => assert_eq!(*lid, loom_id("new-loom")),
        other => panic!("Expected LoomStarted, got {other:?}"),
    }
    // The second knot shares the directory that was made for the first.
    match &out.events[3] {
        LoomEvent::DirectoryCreated { loom_id: lid, knot_id, .. } => {
            assert_eq!(*lid, loom_id("new-loom"));
            assert_eq!(knot_id.0, "k1");
        }
        other => panic!("Expected DirectoryCreated, got {other:?}"),
    }

    assert_eq!(out.source.watches.len(), 2);
    assert!(out.source.watches.iter().any(|p| p == strand_dir));
}

#[test]
fn config_handler_loom_added_already_registered() {
    let store = store_with(build_loom("existing-loom", vec![build_knot("k1")]));
    let out = handle(
        store,
        &Disk::with(&["strands"]),
        ConfigEvent::LoomAdded {
            loom_id: loom_id("existing-loom"),
            loom_dir: "/rig/existing-loom".to_string(),
        },
    );
    assert!(out.result.is_ok(), "should succeed for existing loom");
    assert!(out.source.watches.is_empty());
    // Nothing was scanned, and the loom is as it was.
    assert!(out.repository.scanned.is_empty());
    assert_eq!(
        out.store.get(&loom_id("existing-loom")).unwrap().knots,
        vec![build_knot("k1")]
    );
}

#[test]
fn config_handler_knot_added() {
    let store = store_with(build_loom("test-loom", vec![build_knot("k1")]));
    let out = handle(
        store,
        &Disk::with(&["strands"]),
        ConfigEvent::KnotAdded { loom_id: loom_id("test-loom"), knot: build_knot("k2") },
    );
    assert!(out.result.is_ok(), "should succeed: {:?}", out.result);

    let loom = out.store.get(&loom_id("test-loom")).unwrap();
    assert_eq!(loom.knots.len(), 2);
    let k2 = loom.knots.iter().find(|k| k.id == knot_id("k2")).unwrap();
    assert_eq!(k2.id, knot_id("k2"));

    assert!(out.events.len() >= 1);
    assert_knot_registered(&out.events[0], "test-loom", "k2");

    assert_eq!(out.source.watches.len(), 1);
    assert_eq!(out.source.watches[0], "strands");
}

#[test]
fn config_handler_knot_added_duplicate() {
    let store = store_with(build_loom("test-loom", vec![build_knot("k1")]));
    let out = handle(
        store,
        &Disk::with(&["strands"]),
        ConfigEvent::KnotAdded { loom_id: loom_id("test-loom"), knot: build_knot("k1") },
    );
    assert!(out.result.is_ok(), "should succeed for duplicate knot");
    assert_eq!(out.store.get(&loom_id("test-loom")).unwrap().knots.len(), 1);
    assert!(out.events.is_empty());
    assert!(out.source.watches.is_empty());
}

#[test]
fn config_handler_knot_added_loom_not_found() {
    let out = handle(
        LoomStore::new(),
        &Disk::with(&[]),
        ConfigEvent::KnotAdded { loom_id: loom_id("nonexistent"), knot: build_knot("k1") },
    );
    match out.result.unwrap_err() {
        PortError::LoomNotFound(id) => assert_eq!(id, loom_id("nonexistent")),
        other => panic!("Expected LoomNotFound, got {other:?}"),
    }
}

#[test]
fn config_handler_knot_modified() {
    let store = store_with(build_loom("test-loom", vec![build_knot("k1")]));
    let out = handle(
        store,
        &Disk::with(&["strands"]),
        ConfigEvent::KnotModified {
            loom_id: loom_id("test-loom"),
            knot: build_knot_with_strand_dir("k1", "new-strands"),
        },
    );
    assert!(out.result.is_ok(), "should succeed: {:?}", out.result);

    let loom = out.store.get(&loom_id("test-loom")).unwrap();
    let k1 = loom.knots.iter().find(|k| k.id == knot_id("k1")).unwrap();
    assert_eq!(k1.strand_dir, "new-strands");

    assert_eq!(out.source.unwatches.len(), 1);
    assert_eq!(out.source.unwatches[0], "strands");
}

#[test]
fn config_handler_knot_modified_same_strand_dir() {
    let store = store_with(build_loom("test-loom", vec![build_knot("k1")]));
    let mut updated = build_knot("k1");
    updated.agent_profile_ref = "slow".to_string();
    let out = handle(
        store,
        &Disk::with(&["strands"]),
        ConfigEvent::KnotModified { loom_id: loom_id("test-loom"), knot: updated },
    );
    assert!(out.result.is_ok(), "should succeed: {:?}", out.result);
    assert!(out.source.unwatches.is_empty(), "no unwatch when strand_dir unchanged");
    assert_eq!(out.store.get(&loom_id("test-loom")).unwrap().knots[0].agent_profile_ref, "slow");
}

#[test]
fn config_handler_knot_modified_not_found() {
    let store = store_with(build_loom("test-loom", vec![build_knot("k1")]));
    let out = handle(
        store,
        &Disk::with(&["strands"]),
        ConfigEvent::KnotModified { loom_id: loom_id("test-loom"), knot: build_knot("k_new") },
    );
    assert!(out.result.is_ok(), "should succeed: {:?}", out.result);

    let loom = out.store.get(&loom_id("test-loom")).unwrap();
    assert_eq!(loom.knots.len(), 2);
    let ids: Vec<_> = loom.knots.iter().map(|k| k.id.0.as_str()).collect();
    assert!(ids.contains(&"k1"));
    assert!(ids.contains(&"k_new"));

    assert_eq!(out.events.len(), 1);
    assert_knot_registered(&out.events[0], "test-loom", "k_new");

    assert_eq!(out.source.watches.len(), 1);
    assert_eq!(out.source.watches[0], "strands");
}

#[test]
fn config_handler_knot_modified_new_knot_registers() {
    let store = store_with(build_loom("empty-loom", vec![]));
    let out = handle(
        store,
        &Disk::with(&["strands"]),
        ConfigEvent::KnotModified { loom_id: loom_id("empty-loom"), knot: build_knot("k1") },
    );
    assert!(out.result.is_ok(), "should succeed: {:?}", out.result);

    let loom = out.store.get(&loom_id("empty-loom")).unwrap();
    assert_eq!(loom.knots.len(), 1);
    assert_eq!(loom.knots[0].id, knot_id("k1"));

    assert_eq!(out.events.len(), 1);
    assert_knot_registered(&out.events[0], "empty-loom", "k1");

    assert_eq!(out.source.watches.len(), 1);
    assert_eq!(out.source.watches[0], "strands");
}

#[test]
fn config_handler_knot_modified_warns_on_recovery() {
    let store = store_with(build_loom("warn-loom", vec![]));
    let out = handle(
        store,
        &Disk::with(&["strands"]),
        ConfigEvent::KnotModified { loom_id: loom_id("warn-loom"), knot: build_knot("k_warn") },
    );
    assert!(out.result.is_ok(), "should succeed: {:?}", out.result);

    let has_registered = out.events.iter().any(|e| matches!(e, LoomEvent::KnotRegistered { .. }));
    assert!(has_registered, "recovery path should emit KnotRegistered");

    assert_eq!(out.source.watches.len(), 1, "recovery path should start a watcher");
    assert_eq!(out.source.watches[0], "strands");
}

#[test]
fn config_handler_knot_deleted() {
    let store = store_with(build_loom(
        "test-loom",
        vec![build_knot("k1"), build_knot("k2"), build_knot("k3")],
    ));
    let out = handle(
        store,
        &Disk::with(&["strands"]),
        ConfigEvent::KnotDeleted { loom_id: loom_id("test-loom"), knot_id: knot_id("k2") },
    );
    assert!(out.result.is_ok(), "should succeed: {:?}", out.result);

    let loom = out.store.get(&loom_id("test-loom")).unwrap();
    assert_eq!(loom.knots.len(), 2);
    let ids: Vec<_> = loom.knots.iter().map(|k| k.id.0.as_str()).collect();
    assert!(ids.contains(&"k1"));
    assert!(ids.contains(&"k3"));
    assert!(!ids.contains(&"k2"));

    assert_eq!(out.source.unwatches.len(), 1);
    assert_eq!(out.source.unwatches[0], "strands");

    assert_eq!(out.events.len(), 1);
    match &out.events[0] {
        LoomEvent::KnotDeregistered { loom_id: lid, knot_id: kid, .. } => {
            assert_eq!(*lid, loom_id("test-loom"));
            assert_eq!(*kid, knot_id("k2"));
        }
        other => panic!("Expected KnotDeregistered, got {other:?}"),
    }
}

#[test]
fn config_handler_knot_deleted_not_found() {
    let store = store_with(build_loom("test-loom", vec![build_knot("k1")]));
    let out = handle(
        store,
        &Disk::with(&["strands"]),
        ConfigEvent::KnotDeleted { loom_id: loom_id("test-loom"), knot_id: knot_id("k_unknown") },
    );
    match out.result.unwrap_err() {
        PortError::LoomSaveFailed(msg) => assert!(msg.contains("not found")),
        other => panic!("Expected LoomSaveFailed, got {other:?}"),
    }
}

#[test]
fn config_handler_knot_deleted_loom_not_found() {
    let out = handle(
        LoomStore::new(),
        &Disk::with(&[]),
        ConfigEvent::KnotDeleted { loom_id: loom_id("nonexistent"), knot_id: knot_id("k1") },
    );
    match out.result.unwrap_err() {
        PortError::LoomNotFound(id) => assert_eq!(id, loom_id("nonexistent")),
        other => panic!("Expected LoomNotFound, got {other:?}"),
    }
}

#[test]
fn config_handler_knot_added_missing_strand_dir() {
    let dir = "/tmp/work/nonexistent-strands";
    let disk = Disk::with(&["strands"]);
    assert!(!disk.has(dir));

    let store = store_with(build_loom("auto-dir-loom", vec![build_knot("k1")]));
    let out = handle(
        store,
        &disk,
        ConfigEvent::KnotAdded {
            loom_id: loom_id("auto-dir-loom"),
            knot: build_knot_with_strand_dir("k2", dir),
        },
    );
    assert!(out.result.is_ok(), "should succeed: {:?}", out.result);
    assert!(disk.has(dir), "strand_dir should have been auto-created");

    let event_names: Vec<_> = out
        .events
        .iter()
        .map(|e| match e {
            LoomEvent::KnotRegistered { .. } => "KnotRegistered",
            LoomEvent::DirectoryCreated { .. } => "DirectoryCreated",
            other => panic!("unexpected event variant: {:?}", other),
        })
        .collect();
    assert!(event_names.contains(&"KnotRegistered"), "should log KnotRegistered");
    assert!(event_names.contains(&"DirectoryCreated"), "should log DirectoryCreated");

    let created = out.events.iter().find(|e| matches!(e, LoomEvent::DirectoryCreated { .. }));
    match created.unwrap() {
        LoomEvent::DirectoryCreated { loom_id: lid, knot_id: kid, directory, .. } => {
            assert_eq!(*lid, loom_id("auto-dir-loom"));
            assert_eq!(kid.0, "k2");
            assert_eq!(directory.as_str(), dir);
        }
        _ => unreachable!(),
    }

    assert_eq!(out.source.watches.len(), 1, "watcher should be started after dir creation");
    assert_eq!(out.source.watches[0], dir);
    assert_eq!(out.store.get(&loom_id("auto-dir-loom")).unwrap().knots.len(), 2);
}

#[test]
fn config_handler_knot_modified_missing_strand_dir() {
    let dir = "/tmp/work/new-strands";
    let disk = Disk::with(&["strands"]);
    assert!(!disk.has(dir));

    let store = store_with(build_loom("auto-mod-loom", vec![build_knot("k1")]));
    let out = handle(
        store,
        &disk,
        ConfigEvent::KnotModified {
            loom_id: loom_id("auto-mod-loom"),
            knot: build_knot_with_strand_dir("k1", dir),
        },
    );
    assert!(out.result.is_ok(), "should succeed: {:?}", out.result);
    assert!(disk.has(dir), "new strand_dir should have been auto-created");

    let created = out.events.iter().find(|e| matches!(e, LoomEvent::DirectoryCreated { .. }));
    match created.unwrap() {
        LoomEvent::DirectoryCreated { loom_id: lid, knot_id: kid, directory, .. } => {
            assert_eq!(*lid, loom_id("auto-mod-loom"));
            assert_eq!(kid.0, "k1");
            assert_eq!(directory.as_str(), dir);
        }
        _ => unreachable!(),
    }

    assert_eq!(out.source.unwatches.len(), 1);
    assert_eq!(out.source.unwatches[0], "strands");
    assert_eq!(out.source.watches.len(), 1);
    assert_eq!(out.source.watches[0], dir);

    let loom = out.store.get(&loom_id("auto-mod-loom")).unwrap();
    let k1 = loom.knots.iter().find(|k| k.id == knot_id("k1")).unwrap();
    assert_eq!(k1.strand_dir, dir);
}

#[test]
fn config_handler_loom_added_scans_specific_dir() {
    let strand_dir = "/work/strands";
    let knots = vec![
        build_knot_with_strand_dir("k1", strand_dir),
        build_knot_with_strand_dir("k2", strand_dir),
    ];
    let out = handle_with(
        scanning(knots),
        LoomStore::new(),
        TrackingEventSource::default(),
        "/work/rig",
        &Disk::with(&["/work", "/work/rig"]),
        ConfigEvent::LoomAdded {
            loom_id: loom_id("new-loom"),
            loom_dir: "/work/rig/new-loom".to_string(),
        },
    );
    assert!(out.result.is_ok(), "should succeed: {:?}", out.result);
    assert_eq!(out.repository.scanned, vec!["/work/rig/new-loom".to_string()]);

    let stored = out.store.get(&loom_id("new-loom")).unwrap();
    assert_eq!(stored.id, loom_id("new-loom"));
    assert_eq!(stored.knots.len(), 2);
    let knot_ids: Vec<_> = stored.knots.iter().map(|k| k.id.0.as_str()).collect();
    assert!(knot_ids.contains(&"k1"));
    assert!(knot_ids.contains(&"k2"));

    assert_eq!(out.source.watches.len(), 2);
    assert!(
        out.source.watches.iter().any(|p| p == strand_dir),
        "expected strand_dir in watches, got {:?}",
        out.source.watches
    );
}

#[test]
fn config_handler_loom_added_dir_missing() {
    let repository = MockLoomRepository {
        scan_error: Some("No such file or directory".to_string()),
        ..MockLoomRepository::default()
    };
    let out = handle_with(
        repository,
        LoomStore::new(),
        TrackingEventSource::default(),
        "/workspace/rig",
        &Disk::with(&[]),
        ConfigEvent::LoomAdded {
            loom_id: loom_id("missing-loom"),
            loom_dir: "/workspace/rig/missing-loom".to_string(),
        },
    );
    match out.result.unwrap_err() {
        PortError::RigScanFailed(msg) => assert!(
            msg.contains("No such file or directory"),
            "expected scan error, got: {}",
            msg
        ),
        other => panic!("Expected RigScanFailed, got {other:?}"),
    }
    assert!(out.store.get(&loom_id("missing-loom")).is_none());
}

#[test]
fn relative_strand_dirs_stand_under_the_project_root() {
    let out = handle_with(
        scanning(vec![build_knot_with_strand_dir("k1", "notes")]),
        LoomStore::new(),
        TrackingEventSource::default(),
        "/work/rig",
        &Disk::with(&["/work/notes"]),
        ConfigEvent::LoomAdded {
            loom_id: loom_id("new-loom"),
            loom_dir: "/work/rig/new-loom".to_string(),
        },
    );
    assert!(out.result.is_ok());
    assert_eq!(out.source.watches, vec!["/work/notes".to_string()]);
    assert_eq!(
        out.source.ids,
        vec![("/work/notes".to_string(), loom_id("new-loom"), knot_id("k1"))]
    );
}

#[test]
fn a_loom_in_the_store_is_added_once() {
    let event = || ConfigEvent::LoomAdded {
        loom_id: loom_id("new-loom"),
        loom_dir: "/work/rig/new-loom".to_string(),
    };
    let disk = Disk::with(&["strands"]);
    let first = handle_with(
        scanning(vec![build_knot_with_strand_dir("k1", "/strands")]),
        LoomStore::new(),
        TrackingEventSource::default(),
        "/work/rig",
        &disk,
        event(),
    );
    assert!(first.result.is_ok());
    let looms = first.store.list();
    let second = handle(first.store, &disk, event());
    assert!(second.result.is_ok());
    assert_eq!(second.store.list(), looms);
    assert!(second.events.is_empty());
}

#[test]
fn a_refused_watch_keeps_the_knot() {
    let out = handle_with(
        MockLoomRepository::default(),
        store_with(build_loom("test-loom", vec![])),
        TrackingEventSource { refuse_watch: true, ..TrackingEventSource::default() },
        "/rig",
        &Disk::with(&["strands"]),
        ConfigEvent::KnotAdded { loom_id: loom_id("test-loom"), knot: build_knot("k1") },
    );
    match out.result.unwrap_err() {
        PortError::EventWatchFailed(msg) => assert!(msg.contains("no more watches"), "got: {msg}"),
        other => panic!("Expected WatchFailed, got {other:?}"),
    }
    assert_eq!(out.store.get(&loom_id("test-loom")).unwrap().knots.len(), 1);
}

#[test]
fn a_directory_that_cannot_be_made_fails_the_event() {
    let mut handler = ConfigEventHandler::new(
        MockLoomRepository::default(),
        MockLoomLogPort::default(),
        store_with(build_loom("test-loom", vec![])),
        TrackingEventSource::default(),
        "/rig".to_string(),
        |_: &String| StrandDir::Failed("read-only".to_string()),
    );
    let result = handler.execute(ConfigEvent::KnotAdded {
        loom_id: loom_id("test-loom"),
        knot: build_knot("k1"),
    });
    assert!(result.unwrap_err().display().contains("read-only"));
    assert!(handler.event_source.watches.is_empty());
}
