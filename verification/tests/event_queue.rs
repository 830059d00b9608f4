//! The in-memory queue of strand events.

use knot::entities::{KnotId, LoomId, StrandPath};
use knot::events::{PendingEvent, PendingEventId, PendingEventOrShutdown, StrandEvent};
use knot::in_memory_event_queue::InMemoryEventQueue;
use knot::ports::StrandEventQueue;

/// Build a queued event, under a name of its own.
fn make_pending(event: StrandEvent, n: u32) -> PendingEvent {
    PendingEvent::from_strand_event(&event, PendingEventId(format!("{n}-test")))
}

fn created(path: &str) -> StrandEvent {
    StrandEvent::Created {
        loom_id: LoomId("test-loom".to_string()),
        knot_id: KnotId("test-knot".to_string()),
        strand_path: StrandPath(path.to_string()),
    }
}

fn modified(path: &str) -> StrandEvent {
    StrandEvent::Modified {
        loom_id: LoomId("test-loom".to_string()),
        knot_id: KnotId("test-knot".to_string()),
        strand_path: StrandPath(path.to_string()),
    }
}

// ── Trait Object-Safety ─────────────────────────────────────────

/// Trait is object-safe — `&dyn StrandEventQueue` compiles.
#[test]
fn trait_is_object_safe() {
    let mut queue = InMemoryEventQueue::new();
    let obj: &mut dyn StrandEventQueue = &mut queue;
    assert!(obj.is_empty());
}

// ── push / pop FIFO ───────────────────────────────────────────

/// `push` adds to the back; `pop` removes from the front (FIFO).
#[test]
fn push_pop_fifo() {
    let mut queue = InMemoryEventQueue::new();

    let e1 = make_pending(created("file-a.md"), 1);
    let e2 = make_pending(created("file-b.md"), 2);
    let e3 = make_pending(created("file-c.md"), 3);

    queue.push(e1);
    queue.push(e2);
    queue.push(e3);

    assert_eq!(queue.len(), 3);

    let first = queue.pop().unwrap();
    if let PendingEventOrShutdown::Event(e) = first {
        assert_eq!(e.strand_path, "file-a.md");
    } else {
        panic!("expected Event variant");
    }

    let second = queue.pop().unwrap();
    if let PendingEventOrShutdown::Event(e) = second {
        assert_eq!(e.strand_path, "file-b.md");
    } else {
        panic!("expected Event variant");
    }

    let third = queue.pop().unwrap();
    if let PendingEventOrShutdown::Event(e) = third {
        assert_eq!(e.strand_path, "file-c.md");
    } else {
        panic!("expected Event variant");
    }

    assert!(queue.is_empty());
    // No shutdown — empty pop returns None
    assert!(queue.pop().is_none());
}

// ── push_or_replace ───────────────────────────────────────────

/// `push_or_replace` replaces an existing event with the same
/// dedup key in-place, preserving queue order.
#[test]
fn push_or_replace_existing() {
    let mut queue = InMemoryEventQueue::new();

    let e1 = make_pending(created("file-a.md"), 4);
    let e2 = make_pending(created("file-b.md"), 5);
    let e1_replaced = make_pending(created("file-a.md"), 6); // same dedup key
    let e1_replaced_id = e1_replaced.id.clone();

    queue.push_or_replace(e1);
    queue.push_or_replace(e2);
    queue.push_or_replace(e1_replaced);

    // Item 1 was replaced in-place; queue length is still 2.
    assert_eq!(queue.len(), 2);

    let first = queue.pop().unwrap();
    if let PendingEventOrShutdown::Event(e) = first {
        assert_eq!(e.strand_path, "file-a.md");
        assert_eq!(e.id, e1_replaced_id); // replaced with new ID
    } else {
        panic!("expected Event variant");
    }

    let second = queue.pop().unwrap();
    if let PendingEventOrShutdown::Event(e) = second {
        assert_eq!(e.strand_path, "file-b.md");
    } else {
        panic!("expected Event variant");
    }
}

/// `push_or_replace` pushes a new event when no matching dedup key.
#[test]
fn push_or_replace_different_key() {
    let mut queue = InMemoryEventQueue::new();

    let e1 = make_pending(created("file-a.md"), 7);
    let e2 = make_pending(modified("file-a.md"), 8); // different kind
    let e3 = make_pending(created("file-b.md"), 9); // different path

    queue.push_or_replace(e1);
    queue.push_or_replace(e2);
    queue.push_or_replace(e3);

    assert_eq!(queue.len(), 3);
}

// ── snapshot ──────────────────────────────────────────────────

/// `snapshot()` returns all events in FIFO order.
#[test]
fn snapshot_returns_items_in_fifo_order() {
    let mut queue = InMemoryEventQueue::new();

    queue.push(make_pending(created("file-a.md"), 10));
    queue.push(make_pending(created("file-b.md"), 11));

    let snap = queue.snapshot();
    assert_eq!(snap.len(), 2);
    assert_eq!(snap[0].strand_path, "file-a.md");
    assert_eq!(snap[1].strand_path, "file-b.md");

    // Snapshot is a copy — popping after doesn't change it.
    queue.pop();
    assert_eq!(queue.snapshot().len(), 1);
}

/// `snapshot()` excludes shutdown sentinel.
#[test]
fn snapshot_excludes_shutdown() {
    let mut queue = InMemoryEventQueue::new();

    queue.push(make_pending(created("file-a.md"), 12));
    queue.push_shutdown();

    // snapshot() returns only events (never the shutdown sentinel)
    let snap = queue.snapshot();
    assert_eq!(snap.len(), 1);
    assert_eq!(snap[0].strand_path, "file-a.md");
}

// ── delete / pending_event ────────────────────────────────────

/// `delete` removes the event; returns `true` if it existed.
#[test]
fn delete_existing() {
    let mut queue = InMemoryEventQueue::new();

    let e1 = make_pending(created("file-a.md"), 13);
    let id = e1.id.clone();
    queue.push(e1);
    queue.push(make_pending(created("file-b.md"), 14));

    assert_eq!(queue.len(), 2);
    assert!(queue.delete(&id));
    assert_eq!(queue.len(), 1);
}

/// `delete` returns `false` for non-existent ID.
#[test]
fn delete_nonexistent() {
    let mut queue = InMemoryEventQueue::new();
    let id = PendingEventId("999-zzzz".to_string());
    assert!(!queue.delete(&id));
}

/// `pending_event` returns the event by ID.
#[test]
fn pending_event_existing() {
    let mut queue = InMemoryEventQueue::new();

    let e1 = make_pending(created("file-a.md"), 15);
    let id = e1.id.clone();
    queue.push(e1);

    let found = queue.pending_event(&id).unwrap();
    assert_eq!(found.strand_path, "file-a.md");
}

/// `pending_event` returns `None` for non-existent ID.
#[test]
fn pending_event_nonexistent() {
    let mut queue = InMemoryEventQueue::new();
    let id = PendingEventId("999-zzzz".to_string());
    assert!(queue.pending_event(&id).is_none());
}

// ── shutdown sentinel ─────────────────────────────────────────

/// `push_shutdown` + empty pop returns `Shutdown`.
#[test]
fn shutdown_sentinel() {
    let mut queue = InMemoryEventQueue::new();
    queue.push_shutdown();

    let result = queue.pop();
    assert!(matches!(
        result,
        Some(PendingEventOrShutdown::Shutdown)
    ));
}

/// Events are popped before shutdown sentinel.
#[test]
fn events_before_shutdown() {
    let mut queue = InMemoryEventQueue::new();

    queue.push(make_pending(created("file-a.md"), 16));
    queue.push(make_pending(created("file-b.md"), 17));
    queue.push_shutdown();

    // Events come first.
    let e1 = queue.pop().unwrap();
    if let PendingEventOrShutdown::Event(e) = e1 {
        assert_eq!(e.strand_path, "file-a.md");
    } else {
        panic!("expected Event");
    }

    let e2 = queue.pop().unwrap();
    if let PendingEventOrShutdown::Event(e) = e2 {
        assert_eq!(e.strand_path, "file-b.md");
    } else {
        panic!("expected Event");
    }

    // Then the sentinel.
    let shutdown = queue.pop().unwrap();
    assert!(matches!(
        shutdown,
        PendingEventOrShutdown::Shutdown
    ));
}

#[test]
fn len_and_is_empty() {
    let mut queue = InMemoryEventQueue::new();
    assert_eq!(queue.len(), 0);
    assert!(queue.is_empty());

    queue.push(make_pending(created("file-a.md"), 18));
    assert_eq!(queue.len(), 1);
    assert!(!queue.is_empty());

    queue.pop();
    assert_eq!(queue.len(), 0);
    assert!(queue.is_empty());
}

/// Replacing gives the name of the event that is queued now.
#[test]
fn replacing_gives_the_new_name() {
    let mut queue = InMemoryEventQueue::default();
    queue.push_or_replace(make_pending(created("file-a.md"), 1));
    let id = queue.push_or_replace(make_pending(created("file-a.md"), 2));

    assert_eq!(id, PendingEventId("2-test".to_string()));
    assert!(queue.pending_event(&id).is_some());
    assert!(queue.pending_event(&PendingEventId("1-test".to_string())).is_none());
}

/// The front is looked at, not taken.
#[test]
fn front_leaves_the_event_in_the_queue() {
    let mut queue = InMemoryEventQueue::new();
    assert!(queue.front().is_none());
    queue.push(make_pending(created("file-a.md"), 1));
    queue.push(make_pending(created("file-b.md"), 2));

    assert_eq!(queue.front().unwrap().strand_path, "file-a.md");
    assert_eq!(queue.len(), 2);
    assert_eq!(
        queue.pending_strand_paths(),
        vec!["file-a.md".to_string(), "file-b.md".to_string()]
    );
}

/// A queue that is to shut down says so, and is not empty until the sign has
/// been taken.
#[test]
fn shutdown_is_signalled() {
    let mut queue = InMemoryEventQueue::new();
    assert!(!queue.shutdown_signaled());
    queue.push_shutdown();
    assert!(queue.shutdown_signaled());
    assert!(!queue.is_empty());
    assert_eq!(queue.len(), 0);
}
