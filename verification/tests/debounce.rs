//! Debouncing strand events. Time is played by hand: an engine with a window
//! of 50 milliseconds that is looked at every 5.

use knot::debounce::DebounceEngine;
use knot::entities::{KnotId, LoomId, StrandPath};
use knot::events::{PendingEventId, PendingEventOrShutdown, StrandEvent};
use knot::in_memory_event_queue::InMemoryEventQueue;
use knot::ports::StrandEventQueue;
use knot::time::TimeSpan;

struct Bench {
    engine: DebounceEngine,
    queue: InMemoryEventQueue,
    now: u64,
    ids: u64,
}

fn start_debounce() -> Bench {
    Bench {
        engine: DebounceEngine::new(TimeSpan::from_millis(50)),
        queue: InMemoryEventQueue::new(),
        now: 0,
        ids: 0,
    }
}

impl Bench {
    fn ids(&mut self, n: usize) -> Vec<PendingEventId> {
        (0..n)
            .map(|_| {
                self.ids += 1;
                PendingEventId(format!("{}-test", self.ids))
            })
            .collect()
    }

    fn send(&mut self, event: StrandEvent) {
        self.engine.arrive(event, TimeSpan::from_millis(self.now));
    }

    /// Let time pass, and hand over what is due at every check.
    fn sleep(&mut self, millis: u64) {
        let until = self.now + millis;
        while self.now < until {
            self.now += 5;
            let due = self.engine.take_due(TimeSpan::from_millis(self.now));
            let ids = self.ids(due.len());
            DebounceEngine::deliver(&mut self.queue, &due, ids);
        }
    }

    fn shut_down(&mut self) {
        let ids = self.ids(self.engine.waiting_count());
        self.engine.shut_down(&mut self.queue, ids);
    }
}

fn created(path: &str) -> StrandEvent {
    created_for(path, "test-loom", "test-knot")
}

fn modified(path: &str) -> StrandEvent {
    StrandEvent::Modified {
        loom_id: LoomId("test-loom".to_string()),
        knot_id: KnotId("test-knot".to_string()),
        strand_path: StrandPath(path.to_string()),
    }
}

fn deleted(path: &str) -> StrandEvent {
    StrandEvent::Deleted {
        loom_id: LoomId("test-loom".to_string()),
        knot_id: KnotId("test-knot".to_string()),
        strand_path: StrandPath(path.to_string()),
    }
}

fn created_for(path: &str, loom: &str, knot: &str) -> StrandEvent {
    StrandEvent::Created {
        loom_id: LoomId(loom.to_string()),
        knot_id: KnotId(knot.to_string()),
        strand_path: StrandPath(path.to_string()),
    }
}

#[test]
fn single_event_emits_after_window() {
    let mut bench = start_debounce();
    bench.send(created("file-a.md"));

    bench.sleep(20);
    assert!(bench.queue.pop().is_none(), "event should not be emitted before debounce window");

    bench.sleep(60);
    if let Some(PendingEventOrShutdown::Event(pe)) = bench.queue.pop() {
        assert_eq!(pe.strand_path, "file-a.md");
        assert_eq!(pe.kind, "Created");
    } else {
        panic!("expected Event variant");
    }
}

#[test]
fn shutdown_flush_uses_queue() {
    let mut bench = start_debounce();
    bench.send(created("file-flush.md"));
    bench.shut_down();

    if let Some(PendingEventOrShutdown::Event(pe)) = bench.queue.pop() {
        assert_eq!(pe.strand_path, "file-flush.md");
    } else {
        panic!("expected Event variant");
    }
    assert!(
        matches!(bench.queue.pop(), Some(PendingEventOrShutdown::Shutdown)),
        "should receive Shutdown sentinel after flush"
    );
}

#[test]
fn shutdown_sentinel_arrives_as_shutdown_variant() {
    let mut bench = start_debounce();
    bench.send(created("file-shutdown.md"));
    bench.sleep(80);

    if let Some(PendingEventOrShutdown::Event(pe)) = bench.queue.pop() {
        assert_eq!(pe.strand_path, "file-shutdown.md");
    } else {
        panic!("expected Event variant");
    }

    bench.shut_down();
    assert!(
        matches!(bench.queue.pop(), Some(PendingEventOrShutdown::Shutdown)),
        "should receive Shutdown on shutdown"
    );
}

#[test]
fn rapid_events_produce_one_queued_event() {
    let mut bench = start_debounce();
    for _ in 0..5 {
        bench.send(modified("file-0.md"));
        bench.sleep(5);
    }
    bench.sleep(80);

    if let Some(PendingEventOrShutdown::Event(pe)) = bench.queue.pop() {
        assert_eq!(pe.kind, "Modified");
        assert_eq!(pe.strand_path, "file-0.md");
    } else {
        panic!("expected Event variant");
    }

    bench.shut_down();
    assert!(
        matches!(bench.queue.pop(), Some(PendingEventOrShutdown::Shutdown)),
        "no extra events should be emitted for same file"
    );
}

#[test]
fn different_files_emit_independently() {
    let mut bench = start_debounce();
    bench.send(created("file-a.md"));
    bench.send(created("file-b.md"));
    bench.sleep(80);

    let mut paths = Vec::new();
    for _ in 0..2 {
        if let Some(PendingEventOrShutdown::Event(pe)) = bench.queue.pop() {
            paths.push(pe.strand_path);
        } else {
            panic!("expected Event variant");
        }
    }
    assert!(paths.contains(&"file-a.md".to_string()));
    assert!(paths.contains(&"file-b.md".to_string()));

    bench.shut_down();
    assert!(
        matches!(bench.queue.pop(), Some(PendingEventOrShutdown::Shutdown)),
        "no extra events expected"
    );
}

#[test]
fn delete_after_modify_emits_delete() {
    let mut bench = start_debounce();
    bench.send(modified("file-x.md"));
    bench.sleep(10);
    bench.send(deleted("file-x.md"));
    bench.sleep(80);

    if let Some(PendingEventOrShutdown::Event(pe)) = bench.queue.pop() {
        assert_eq!(pe.kind, "Deleted");
        assert_eq!(pe.strand_path, "file-x.md");
    } else {
        panic!("expected Event variant");
    }

    bench.shut_down();
    assert!(
        matches!(bench.queue.pop(), Some(PendingEventOrShutdown::Shutdown)),
        "no extra events expected"
    );
}

#[test]
fn same_file_different_knots_both_emit() {
    let mut bench = start_debounce();
    bench.send(created_for("shared.md", "loom-1", "knot-a"));
    bench.send(created_for("shared.md", "loom-1", "knot-b"));
    bench.sleep(80);

    let mut knot_ids = Vec::new();
    for _ in 0..2 {
        if let Some(PendingEventOrShutdown::Event(pe)) = bench.queue.pop() {
            assert_eq!(pe.strand_path, "shared.md");
            knot_ids.push(pe.knot_id);
        } else {
            panic!("expected Event variant");
        }
    }
    assert!(knot_ids.contains(&"knot-a".to_string()));
    assert!(knot_ids.contains(&"knot-b".to_string()));
}

#[test]
fn a_new_event_starts_the_window_anew() {
    let mut bench = start_debounce();
    bench.send(modified("file-a.md"));
    bench.sleep(45);
    bench.send(modified("file-a.md"));
    bench.sleep(45);
    assert!(bench.queue.is_empty());
    assert_eq!(bench.engine.waiting_count(), 1);
    bench.sleep(5);
    assert_eq!(bench.queue.len(), 1);
    assert_eq!(bench.engine.waiting_count(), 0);
}

#[test]
fn one_file_under_two_spellings_waits_once() {
    let mut bench = start_debounce();
    bench.send(modified("strands/a.md"));
    bench.send(deleted("strands//./a.md"));
    assert_eq!(bench.engine.waiting_count(), 1);
    assert!(DebounceEngine::same_key(&modified("a/b"), &created("a/b/")));
    assert!(!DebounceEngine::same_key(&modified("a/b"), &modified("/a/b")));
}
