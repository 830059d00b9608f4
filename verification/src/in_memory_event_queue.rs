//! In-memory implementation of [`StrandEventQueue`].

use crate::events::{
    PendingEvent, PendingEventId, PendingEventOrShutdown, PendingEventView,
};
use crate::ports;
use crate::ports::StrandEventQueue;
use crate::text;
use vstd::prelude::*;

verus! {

/// Strand events in memory, front first, and the shutdown sentinel.
#[derive(Debug)]
pub struct InMemoryEventQueue {
    events: Vec<PendingEvent>,
    shutdown: bool,
}

proof fn first_is_found(
    events: Seq<PendingEventView>,
    wanted: spec_fn(PendingEventView) -> bool,
    i: int,
)
    requires
        ports::first_in(events, wanted, i),
    ensures
        ports::lookup(events, wanted) == Some(i),
{
    let k = choose|k: int| ports::first_in(events, wanted, k);
    assert(ports::first_in(events, wanted, k));
    if k < i {
        assert(!wanted(events[k]));
    } else if i < k {
        assert(!wanted(events[i]));
    }
}

impl InMemoryEventQueue {
    /// Create an empty queue.
    pub fn new() -> (queue: Self)
        ensures
            queue.events() == Seq::<PendingEventView>::empty(),
            !queue.closed(),
    {
        let queue = InMemoryEventQueue { events: Vec::new(), shutdown: false };
        assert(queue.events() =~= Seq::empty());
        queue
    }

    fn position_of_id(&self, id: &PendingEventId) -> (pos: Option<usize>)
        ensures
            ports::lookup(self.events(), ports::has_id(id@)) == (match pos {
                Some(i) => Some(i as int),
                None => None,
            }),
            pos matches Some(i) ==> i < self.events@.len(),
    {
        let ghost wanted = ports::has_id(id@);
        for i in 0..self.events.len()
            invariant
                wanted == ports::has_id(id@),
                self.events() == text::views(self.events@),
                forall|j: int| 0 <= j < i ==> !wanted(#[trigger] self.events()[j]),
        {
            assert(self.events()[i as int] == self.events@[i as int]@);
            if self.events[i].id.0 == id.0 {
                proof {
                    first_is_found(self.events(), wanted, i as int);
                }
                return Some(i);
            }
        }
        None
    }

    fn position_of_same(&self, event: &PendingEvent) -> (pos: Option<usize>)
        ensures
            ports::lookup(self.events(), ports::same_as(event@)) == (match pos {
                Some(i) => Some(i as int),
                None => None,
            }),
            pos matches Some(i) ==> i < self.events@.len(),
    {
        let ghost wanted = ports::same_as(event@);
        for i in 0..self.events.len()
            invariant
                wanted == ports::same_as(event@),
                self.events() == text::views(self.events@),
                forall|j: int| 0 <= j < i ==> !wanted(#[trigger] self.events()[j]),
        {
            assert(self.events()[i as int] == self.events@[i as int]@);
            if self.events[i].same_key(event) {
                proof {
                    first_is_found(self.events(), wanted, i as int);
                }
                return Some(i);
            }
        }
        None
    }

    /// The strands of the pending events, front first.
    pub fn pending_strand_paths(&self) -> (paths: Vec<String>)
        ensures
            text::texts(paths@) == self.events().map_values(|e: PendingEventView| e.strand_path),
    {
        broadcast use text::texts_push;

        let ghost all = self.events().map_values(|e: PendingEventView| e.strand_path);
        let mut paths: Vec<String> = Vec::new();
        assert(text::texts(paths@) =~= all.take(0));
        for i in 0..self.events.len()
            invariant
                self.events() == text::views(self.events@),
                all == self.events().map_values(|e: PendingEventView| e.strand_path),
                text::texts(paths@) == all.take(i as int),
        {
            paths.push(self.events[i].strand_path.clone());
            assert(self.events()[i as int] == self.events@[i as int]@);
            assert(all.take(i + 1) =~= all.take(i as int).push(all[i as int]));
        }
        assert(all.take(self.events.len() as int) =~= all);
        paths
    }
}

impl Default for InMemoryEventQueue {
    /// An empty queue.
    fn default() -> (queue: Self)
        ensures
            queue.events() == Seq::<PendingEventView>::empty(),
            !queue.closed(),
    {
        Self::new()
    }
}

impl StrandEventQueue for InMemoryEventQueue {
    closed spec fn events(&self) -> Seq<PendingEventView> {
        text::views(self.events@)
    }

    closed spec fn closed(&self) -> bool {
        self.shutdown
    }

    fn push(&mut self, event: PendingEvent) -> (id: PendingEventId) {
        broadcast use text::views_push;

        let id = event.id.clone();
        self.events.push(event);
        id
    }

    fn push_or_replace(&mut self, event: PendingEvent) -> (id: PendingEventId) {
        broadcast use text::views_push;

        let id = event.id.clone();
        match self.position_of_same(&event) {
            Some(i) => {
                self.events.set(i, event);
                assert(self.events() =~= old(self).events().update(i as int, event@));
            },
            None => {
                self.events.push(event);
            },
        }
        id
    }

    fn pop(&mut self) -> (item: Option<PendingEventOrShutdown>) {
        if self.events.len() > 0 {
            let event = self.events.remove(0);
            assert(self.events() =~= old(self).events().drop_first());
            Some(PendingEventOrShutdown::Event(event))
        } else if self.shutdown {
            Some(PendingEventOrShutdown::Shutdown)
        } else {
            None
        }
    }

    fn front(&self) -> (event: Option<PendingEvent>) {
        if self.events.len() > 0 {
            Some(self.events[0].clone())
        } else {
            None
        }
    }

    fn shutdown_signaled(&self) -> (closed: bool) {
        self.shutdown
    }

    fn snapshot(&self) -> (events: Vec<PendingEvent>) {
        let events = self.events.clone();
        assert(text::views(events@) =~= self.events());
        events
    }

    fn delete(&mut self, id: &PendingEventId) -> (found: bool) {
        match self.position_of_id(id) {
            Some(i) => {
                self.events.remove(i);
                assert(self.events() =~= old(self).events().remove(i as int));
                true
            },
            None => false,
        }
    }

    fn pending_event(&self, id: &PendingEventId) -> (event: Option<PendingEvent>) {
        match self.position_of_id(id) {
            Some(i) => Some(self.events[i].clone()),
            None => None,
        }
    }

    fn len(&self) -> (n: usize) {
        self.events.len()
    }

    fn is_empty(&self) -> (empty: bool) {
        self.events.len() == 0 && !self.shutdown
    }

    fn push_shutdown(&mut self) {
        self.shutdown = true;
    }
}

/// A queue without repeated events stays without repeated events when an
/// event is pushed or replaced, and grows by at most one.
pub proof fn replacing_keeps_events_distinct(
    events: Seq<PendingEventView>,
    event: PendingEventView,
)
    requires
        forall|i: int, j: int|
            0 <= i < j < events.len() ==> (#[trigger] events[i]).dedup_key() != (
            #[trigger] events[j]).dedup_key(),
    ensures
        ({
            let after = ports::replaced_or_pushed(events, event);
            &&& after.contains(event)
            &&& events.len() <= after.len() <= events.len() + 1
            &&& forall|i: int, j: int|
                0 <= i < j < after.len() ==> (#[trigger] after[i]).dedup_key() != (
                #[trigger] after[j]).dedup_key()
        }),
{
    let after = ports::replaced_or_pushed(events, event);
    let wanted = ports::same_as(event);
    match ports::lookup(events, wanted) {
        Some(i) => {
            assert(ports::first_in(events, wanted, i));
            assert(after[i] == event);
        },
        None => {
            assert(after[events.len() as int] == event);
            assert forall|i: int| 0 <= i < events.len() implies (
            #[trigger] events[i]).dedup_key() != event.dedup_key() by {
                if events[i].dedup_key() == event.dedup_key() {
                    no_first_no_match(events, wanted, i);
                }
            }
        },
    }
}

/// Where an event is wanted, there is a first one that is.
proof fn no_first_no_match(
    events: Seq<PendingEventView>,
    wanted: spec_fn(PendingEventView) -> bool,
    i: int,
)
    requires
        0 <= i < events.len(),
        wanted(events[i]),
    ensures
        exists|k: int| ports::first_in(events, wanted, k),
    decreases i,
{
    if exists|j: int| 0 <= j < i && wanted(#[trigger] events[j]) {
        let j = choose|j: int| 0 <= j < i && wanted(#[trigger] events[j]);
        no_first_no_match(events, wanted, j);
    } else {
        assert(ports::first_in(events, wanted, i));
    }
}

/// A queue after a number of events were taken from its front.
pub open spec fn popped(events: Seq<PendingEventView>, n: nat) -> Seq<PendingEventView>
    decreases n,
{
    if n == 0 {
        events
    } else {
        popped(events.drop_first(), (n - 1) as nat)
    }
}

/// Events leave a queue in the order in which they were pushed: the event with
/// `n` events before it is the next one after `n` pops, whatever was pushed
/// behind it.
pub proof fn first_in_first_out(
    events: Seq<PendingEventView>,
    later: Seq<PendingEventView>,
    n: nat,
)
    requires
        n < events.len(),
    ensures
        popped(events + later, n).len() > 0,
        popped(events + later, n)[0] == events[n as int],
    decreases n,
{
    if n > 0 {
        assert((events + later).drop_first() =~= events.drop_first() + later);
        first_in_first_out(events.drop_first(), later, (n - 1) as nat);
    }
}

/// A pushed event takes the place of the first queued one with the same kind,
/// strand, loom and knot, whatever the names of the two; everything else stays
/// where it is.
pub proof fn repeated_events_are_replaced(
    events: Seq<PendingEventView>,
    event: PendingEventView,
    at: int,
)
    requires
        0 <= at < events.len(),
        events[at].kind == event.kind,
        events[at].strand_path == event.strand_path,
        events[at].loom_id == event.loom_id,
        events[at].knot_id == event.knot_id,
        forall|j: int|
            0 <= j < at ==> (#[trigger] events[j]).kind != event.kind || events[j].strand_path
                != event.strand_path || events[j].loom_id != event.loom_id || events[j].knot_id
                != event.knot_id,
    ensures
        ({
            let after = ports::replaced_or_pushed(events, event);
            &&& after.len() == events.len()
            &&& after[at] == event
            &&& forall|j: int| 0 <= j < events.len() && j != at ==> #[trigger] after[j] == events[j]
        }),
{
    let wanted = ports::same_as(event);
    assert forall|j: int| 0 <= j < at implies !wanted(#[trigger] events[j]) by {
        let a = events[j].dedup_key();
        let b = event.dedup_key();
        if a == b {
            assert(a.kind == b.kind && a.strand_path == b.strand_path && a.loom_id == b.loom_id
                && a.knot_id == b.knot_id);
        }
    }
    first_is_found(events, wanted, at);
}

/// An event that differs from every queued one in its kind, strand, loom or
/// knot joins the back, and the others stay as they are.
pub proof fn new_events_join_the_back(events: Seq<PendingEventView>, event: PendingEventView)
    requires
        forall|j: int|
            0 <= j < events.len() ==> (#[trigger] events[j]).kind != event.kind
                || events[j].strand_path != event.strand_path || events[j].loom_id
                != event.loom_id || events[j].knot_id != event.knot_id,
    ensures
        ports::replaced_or_pushed(events, event) == events.push(event),
{
    let wanted = ports::same_as(event);
    if exists|i: int| ports::first_in(events, wanted, i) {
        let i = choose|i: int| ports::first_in(events, wanted, i);
        let a = events[i].dedup_key();
        let b = event.dedup_key();
        assert(a == b);
        assert(a.kind == b.kind && a.strand_path == b.strand_path && a.loom_id == b.loom_id
            && a.knot_id == b.knot_id);
    }
}

/// A queued event is found by its name where it first stands, and not at all
/// under a name that none carries.
pub proof fn events_are_found_by_name(events: Seq<PendingEventView>, id: Seq<char>, at: int)
    ensures
        0 <= at < events.len() && events[at].id == id && (forall|j: int|
            0 <= j < at ==> (#[trigger] events[j]).id != id) ==> ports::lookup(
            events,
            ports::has_id(id),
        ) == Some(at),
        (forall|j: int| 0 <= j < events.len() ==> (#[trigger] events[j]).id != id)
            ==> ports::lookup(events, ports::has_id(id)) is None,
{
    let wanted = ports::has_id(id);
    if 0 <= at < events.len() && events[at].id == id && (forall|j: int|
        0 <= j < at ==> (#[trigger] events[j]).id != id) {
        assert(forall|j: int| 0 <= j < at ==> !wanted(#[trigger] events[j]));
        first_is_found(events, wanted, at);
    }
    if exists|i: int| ports::first_in(events, wanted, i) {
        let i = choose|i: int| ports::first_in(events, wanted, i);
        assert(events[i].id == id);
    }
}

} // verus!
