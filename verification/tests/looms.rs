//! Looms are discovered, registered, reloaded, unregistered and looked up.

use knot::entities::{Knot, KnotId, Loom, LoomId, PromptTemplate, StrandPath};
use knot::errors::PortError;
use knot::events::LoomEvent;
use knot::ports::{EventSource, LoomLogPort, LoomRepository, WatchType};
use knot::store::LoomStore;
use knot::usecases::{
    DiscoverLooms, GetLoom, GetLoomActivity, ListLooms, RegisterLoom, ReloadConfig, StrandDir,
    UnregisterLoom,
};
use std::cell::RefCell;

/// An event source that notes what it watches.
#[derive(Default)]
struct TrackingEventSource {
    watches: Vec<String>,
    unwatches: Vec<String>,
}

impl EventSource for TrackingEventSource {
    fn watch(&mut self, path: &str) -> Result<(), PortError> {
        self.watches.push(path.to_string());
        Ok(())
    }

    fn unwatch(&mut self, path: &str) -> Result<(), PortError> {
        self.unwatches.push(path.to_string());
        Ok(())
    }

    fn unwatch_with_type(&mut self, path: &str, _watch_type: WatchType) -> Result<(), PortError> {
        self.unwatch(path)
    }

    fn set_loom_ids(&mut self, _source_dir: &str, _loom_id: &LoomId, _knot_id: &KnotId) {}

    fn register_watch(&mut self, _path: String, _watch_type: WatchType) {}
}

#[derive(Default)]
struct MockLoomLogPort {
    events: Vec<LoomEvent>,
    broken: bool,
}

impl LoomLogPort for MockLoomLogPort {
    fn open(&mut self, _loom_id: &LoomId) -> Result<(), PortError> {
        Ok(())
    }

    fn append(&mut self, event: LoomEvent) -> Result<(), PortError> {
        if self.broken {
            return Err(PortError::LoomLogAppendFailed("disk full".to_string()));
        }
        self.events.push(event);
        Ok(())
    }

    fn read_all(&mut self, _loom_id: &LoomId) -> Result<Vec<LoomEvent>, PortError> {
        if self.broken {
            return Err(PortError::LoomLogReadFailed("gone".to_string()));
        }
        Ok(self.events.clone())
    }
}

struct MockLoomRepository {
    scan_looms: Vec<Loom>,
    scanned: Vec<String>,
}

impl LoomRepository for MockLoomRepository {
    fn scan(&mut self, rig: &str) -> Result<(Vec<Loom>, Vec<String>), PortError> {
        self.scanned.push(rig.to_string());
        Ok((self.scan_looms.clone(), vec![]))
    }

    fn scan_knot_files(&mut self, _loom_dir: &str) -> Result<(Vec<Knot>, Vec<String>), PortError> {
        Ok((vec![], vec![]))
    }

    fn get(&mut self, _id: &LoomId) -> Result<Option<Loom>, PortError> {
        Ok(None)
    }

    fn list(&mut self) -> Result<Vec<Loom>, PortError> {
        Ok(vec![])
    }

    fn save(&mut self, _loom: Loom) -> Result<(), PortError> {
        Ok(())
    }
}

fn build_loom(id: &str, knots: Vec<Knot>) -> Loom {
    Loom { id: loom_id(id), knots }
}

fn build_knot(id: &str) -> Knot {
    Knot {
        id: KnotId(id.to_string()),
        agent_profile_ref: "fast".to_string(),
        prompt_template: PromptTemplate { instructions: "check it".to_string() },
        strand_dir: "strands".to_string(),
        git_versioned: true,
    }
}

fn loom_id(id: &str) -> LoomId {
    LoomId(id.to_string())
}

fn scanning(looms: Vec<Loom>) -> MockLoomRepository {
    MockLoomRepository { scan_looms: looms, scanned: vec![] }
}

fn existing(_dir: &String) -> StrandDir {
    StrandDir::Existing
}

fn store_of(looms: Vec<Loom>) -> LoomStore {
    let mut store = LoomStore::new();
    for loom in looms {
        store.register(loom);
    }
    store
}

#[test]
fn register_loom_starts_watchers() {
    let loom = build_loom("watch-loom", vec![build_knot("k1"), build_knot("k2")]);
    let mut use_case = RegisterLoom::new(
        MockLoomLogPort::default(),
        LoomStore::new(),
        TrackingEventSource::default(),
        existing,
    );
    let result = use_case.execute(loom);
    assert!(result.is_ok());

    assert_eq!(use_case.event_source.watches.len(), 2);
    assert!(use_case.event_source.watches.iter().any(|p| p == "strands"));
    assert!(use_case.store.get(&loom_id("watch-loom")).is_some());
}

#[test]
fn register_loom_starts_watcher_empty_knots() {
    let mut use_case = RegisterLoom::new(
        MockLoomLogPort::default(),
        LoomStore::new(),
        TrackingEventSource::default(),
        existing,
    );
    let result = use_case.execute(build_loom("empty-loom", vec![]));
    assert!(result.is_ok());
    assert_eq!(use_case.event_source.watches.len(), 0);
    assert!(use_case.store.get(&loom_id("empty-loom")).is_some());
}

#[test]
fn register_loom_duplicate_is_idempotent() {
    let loom1 = build_loom("dup", vec![build_knot("k1")]);
    let loom2 = build_loom("dup", vec![build_knot("k2")]);

    let mut use_case = RegisterLoom::new(
        MockLoomLogPort::default(),
        LoomStore::new(),
        TrackingEventSource::default(),
        existing,
    );
    assert!(use_case.execute(loom1).is_ok());
    assert_eq!(use_case.event_source.watches.len(), 1);

    let mut use_case = RegisterLoom::new(
        MockLoomLogPort::default(),
        use_case.store,
        TrackingEventSource::default(),
        existing,
    );
    let result = use_case.execute(loom2);
    assert!(result.is_ok());
    assert!(use_case.event_source.watches.is_empty());

    let stored = use_case.store.get(&loom_id("dup")).unwrap();
    assert_eq!(stored.knots.len(), 1);
    assert_eq!(stored.knots[0].id, KnotId("k1".to_string()));
}

#[test]
fn registration_is_announced_in_order() {
    let mut use_case = RegisterLoom::new(
        MockLoomLogPort::default(),
        LoomStore::new(),
        TrackingEventSource::default(),
        existing,
    );
    assert!(use_case.execute(build_loom("l", vec![build_knot("a"), build_knot("b")])).is_ok());
    let names: Vec<String> = use_case
        .log_port
        .events
        .iter()
        .map(|e| match e {
            LoomEvent::KnotRegistered { knot_id, .. } => format!("registered {}", knot_id.0),
            LoomEvent::LoomStarted { loom_id, .. } => format!("started {}", loom_id.0),
            other => panic!("unexpected {other:?}"),
        })
        .collect();
    assert_eq!(names, vec!["registered a", "registered b", "started l"]);
}

#[test]
fn unregister_loom_stops_watchers() {
    let loom = build_loom("unwatch-loom", vec![build_knot("k1"), build_knot("k2")]);
    let mut use_case = UnregisterLoom::new(
        MockLoomLogPort::default(),
        store_of(vec![loom]),
        TrackingEventSource::default(),
    );
    let result = use_case.execute(&loom_id("unwatch-loom"));
    assert!(result.is_ok());

    assert_eq!(use_case.event_source.unwatches.len(), 2);
    assert!(use_case.event_source.unwatches.iter().any(|p| p == "strands"));
    assert!(use_case.store.get(&loom_id("unwatch-loom")).is_none());
}

#[test]
fn unregister_loom_stops_watcher_empty_knots() {
    let mut use_case = UnregisterLoom::new(
        MockLoomLogPort::default(),
        store_of(vec![build_loom("empty-unwatch-loom", vec![])]),
        TrackingEventSource::default(),
    );
    let result = use_case.execute(&loom_id("empty-unwatch-loom"));
    assert!(result.is_ok());
    assert_eq!(use_case.event_source.unwatches.len(), 0);
    assert!(use_case.store.get(&loom_id("empty-unwatch-loom")).is_none());
}

#[test]
fn unregister_loom_not_found_no_unwatch() {
    let mut use_case = UnregisterLoom::new(
        MockLoomLogPort::default(),
        LoomStore::new(),
        TrackingEventSource::default(),
    );
    let result = use_case.execute(&loom_id("nonexistent"));
    match result.unwrap_err() {
        PortError::LoomNotFound(id) => assert_eq!(id, loom_id("nonexistent")),
        other => panic!("Expected LoomNotFound, got {other:?}"),
    }
    assert!(use_case.event_source.unwatches.is_empty());
}

#[test]
fn discover_looms_runtime_skips_registered() {
    let existing_loom = build_loom("existing", vec![build_knot("k1")]);
    let new_loom = build_loom("new-loom", vec![build_knot("k2")]);
    let new_loom2 = build_loom("new-loom2", vec![]);

    let mut use_case = DiscoverLooms::new(
        scanning(vec![existing_loom.clone(), new_loom, new_loom2]),
        MockLoomLogPort::default(),
        store_of(vec![existing_loom]),
        TrackingEventSource::default(),
        existing,
    );
    let discovered = use_case.execute("/workspace").unwrap();
    assert_eq!(discovered.len(), 2);

    let ids: Vec<_> = discovered.iter().map(|l| l.id.0.as_str()).collect();
    assert!(ids.contains(&"new-loom"));
    assert!(ids.contains(&"new-loom2"));
    assert!(!ids.contains(&"existing"));

    assert_eq!(use_case.event_source.watches.len(), 1);
    assert!(use_case.store.get(&loom_id("new-loom")).is_some());
    assert!(use_case.store.get(&loom_id("new-loom2")).is_some());
    assert_eq!(use_case.repository.scanned, vec!["/workspace".to_string()]);
}

#[test]
fn discover_looms_all_registered_returns_empty() {
    let loom1 = build_loom("loom-a", vec![build_knot("k1")]);
    let loom2 = build_loom("loom-b", vec![build_knot("k2")]);

    let mut use_case = DiscoverLooms::new(
        scanning(vec![loom1.clone(), loom2.clone()]),
        MockLoomLogPort::default(),
        store_of(vec![loom1, loom2]),
        TrackingEventSource::default(),
        existing,
    );
    let discovered = use_case.execute("/workspace").unwrap();
    assert!(discovered.is_empty());
    assert!(use_case.event_source.watches.is_empty());
}

#[test]
fn discover_looms_empty_scan() {
    let mut use_case = DiscoverLooms::new(
        scanning(vec![]),
        MockLoomLogPort::default(),
        LoomStore::new(),
        TrackingEventSource::default(),
        existing,
    );
    let result = use_case.execute("/workspace");
    assert!(result.unwrap().is_empty());
    assert!(use_case.event_source.watches.is_empty());
}

#[test]
fn discovery_finds_the_first_of_each_new_name_in_order() {
    let mut use_case = DiscoverLooms::new(
        scanning(vec![
            build_loom("c", vec![]),
            build_loom("a", vec![]),
            build_loom("c", vec![build_knot("k1")]),
            build_loom("b", vec![]),
        ]),
        MockLoomLogPort::default(),
        store_of(vec![build_loom("a", vec![build_knot("k2")])]),
        TrackingEventSource::default(),
        existing,
    );
    let found = use_case.execute("/workspace").unwrap();
    assert_eq!(found, vec![build_loom("c", vec![]), build_loom("b", vec![])]);
    assert_eq!(use_case.store.get(&loom_id("a")), Some(build_loom("a", vec![build_knot("k2")])));
    assert_eq!(use_case.store.get(&loom_id("c")), Some(build_loom("c", vec![])));
    assert_eq!(use_case.store.list().len(), 3);
}

#[test]
fn each_directory_is_asked_for_once() {
    let asked = RefCell::new(Vec::new());
    let ensure_dir = |dir: &String| {
        asked.borrow_mut().push(dir.clone());
        StrandDir::Existing
    };
    let mut use_case = RegisterLoom::new(
        MockLoomLogPort::default(),
        LoomStore::new(),
        TrackingEventSource::default(),
        ensure_dir,
    );
    let loom = build_loom("a", vec![build_knot("k1"), build_knot("k2")]);
    let dirs: Vec<String> = loom.knots.iter().map(|k| k.strand_dir.clone()).collect();
    assert!(use_case.execute(loom).is_ok());
    assert_eq!(*asked.borrow(), dirs);
}

#[test]
fn a_second_discovery_finds_nothing() {
    let mut use_case = DiscoverLooms::new(
        scanning(vec![build_loom("a", vec![build_knot("k1")]), build_loom("b", vec![])]),
        MockLoomLogPort::default(),
        LoomStore::new(),
        TrackingEventSource::default(),
        existing,
    );
    assert_eq!(use_case.execute("/workspace").unwrap().len(), 2);
    let looms = use_case.store.list();
    assert!(use_case.execute("/workspace").unwrap().is_empty());
    assert_eq!(use_case.store.list(), looms);
    assert_eq!(use_case.event_source.watches.len(), 1);
}

#[test]
fn looms_are_listed_with_their_knot_counts() {
    let store = store_of(vec![
        build_loom("a", vec![build_knot("k1"), build_knot("k2")]),
        build_loom("b", vec![]),
    ]);
    let use_case = ListLooms::new(store);
    let mut found: Vec<(String, usize)> =
        use_case.execute().into_iter().map(|s| (s.id.0, s.knot_count)).collect();
    found.sort();
    assert_eq!(found, vec![("a".to_string(), 2), ("b".to_string(), 0)]);
}

#[test]
fn a_loom_is_looked_up_by_id() {
    let loom = build_loom("a", vec![build_knot("k1")]);
    let use_case = GetLoom::new(store_of(vec![loom.clone()]));
    assert_eq!(use_case.execute(&loom_id("a")).unwrap(), loom);
    match use_case.execute(&loom_id("b")).unwrap_err() {
        PortError::LoomNotFound(id) => assert_eq!(id, loom_id("b")),
        other => panic!("Expected LoomNotFound, got {other:?}"),
    }
}

#[test]
fn activity_is_what_the_log_holds() {
    let event = LoomEvent::StrandProcessed {
        loom_id: loom_id("a"),
        strand_path: StrandPath("s.md".to_string()),
        error: None,
        timestamp: "2026-01-01T00:00:00Z".to_string(),
    };
    let log = MockLoomLogPort { events: vec![event.clone()], broken: false };
    assert_eq!(GetLoomActivity::new(log).execute(&loom_id("a")).unwrap(), vec![event]);

    let log = MockLoomLogPort { events: vec![], broken: true };
    assert!(matches!(
        GetLoomActivity::new(log).execute(&loom_id("a")),
        Err(PortError::LoomLogReadFailed(_))
    ));
}

#[test]
fn a_log_that_fails_fails_the_registration() {
    let mut use_case = RegisterLoom::new(
        MockLoomLogPort { events: vec![], broken: true },
        LoomStore::new(),
        TrackingEventSource::default(),
        existing,
    );
    let error = use_case.execute(build_loom("l", vec![build_knot("a")])).unwrap_err();
    assert!(error.display().contains("disk full"), "got: {}", error.display());
    assert!(use_case.event_source.watches.is_empty());
}

fn reloading(scanned: Vec<Loom>, known: Vec<Loom>) -> (Vec<LoomId>, LoomStore, Vec<String>) {
    let mut use_case = ReloadConfig::new(
        scanning(scanned),
        MockLoomLogPort::default(),
        store_of(known),
        TrackingEventSource::default(),
        "/workspace/rig".to_string(),
        existing,
    );
    let ids = use_case.execute().unwrap();
    assert_eq!(use_case.repository.scanned, vec!["/workspace/rig".to_string()]);
    (ids, use_case.store, use_case.event_source.watches)
}

#[test]
fn reload_config_discovers_new_looms() {
    let new_loom = build_loom("new-loom", vec![build_knot("k1")]);
    let new_loom2 = build_loom("new-loom2", vec![]);
    let (ids, store, watches) = reloading(vec![new_loom, new_loom2], vec![]);

    assert_eq!(ids.len(), 2);
    assert!(ids.contains(&loom_id("new-loom")));
    assert!(ids.contains(&loom_id("new-loom2")));
    assert!(store.get(&loom_id("new-loom")).is_some());
    assert!(store.get(&loom_id("new-loom2")).is_some());
    assert_eq!(watches.len(), 1);
}

#[test]
fn reload_config_skips_registered() {
    let existing_loom = build_loom("existing", vec![build_knot("k1")]);
    let new_loom = build_loom("new-loom", vec![build_knot("k2")]);
    let (ids, store, watches) =
        reloading(vec![existing_loom.clone(), new_loom], vec![existing_loom]);

    assert_eq!(ids.len(), 1);
    assert_eq!(ids[0], loom_id("new-loom"));
    assert!(store.get(&loom_id("existing")).is_some());
    assert!(store.get(&loom_id("new-loom")).is_some());
    assert_eq!(watches.len(), 1);
}

#[test]
fn reload_config_all_registered_returns_empty() {
    let loom1 = build_loom("loom-a", vec![build_knot("k1")]);
    let loom2 = build_loom("loom-b", vec![build_knot("k2")]);
    let looms = vec![loom1, loom2];
    let (ids, _store, watches) = reloading(looms.clone(), looms);
    assert!(ids.is_empty());
    assert!(watches.is_empty());
}
