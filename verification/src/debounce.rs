//! Debounce engine for strand file-system events.
//!
//! Rapid events for the same file are grouped into one: only the last event
//! within the window is emitted. Events for different files, or for
//! different knots that watch the same file, wait independently.

use crate::events;
use crate::events::{
    PendingEvent, PendingEventId, PendingEventView, StrandEvent, StrandEventView,
};
use crate::paths;
use crate::paths::{same_path, PathKey};
use crate::ports;
use crate::ports::StrandEventQueue;
use crate::text;
use crate::time::TimeSpan;
use vstd::prelude::*;

verus! {

/// Default debounce window in milliseconds, per file.
pub const DEFAULT_DEBOUNCE_WINDOW_MILLIS: u64 = 100;

/// Default check interval in milliseconds.
pub const DEFAULT_CHECK_INTERVAL_MILLIS: u64 = 5;

/// What a waiting event is kept under: file, loom and knot.
pub struct EventKey {
    pub strand_path: PathKey,
    pub loom_id: Seq<char>,
    pub knot_id: Seq<char>,
}

/// The key of an event, whatever its kind.
pub open spec fn key_of(event: StrandEventView) -> EventKey {
    EventKey {
        strand_path: paths::path_key(event.strand_path),
        loom_id: event.loom_id,
        knot_id: event.knot_id,
    }
}

/// An event that waits for its window to pass.
pub struct Waiting {
    pub event: StrandEventView,
    /// When the event arrived.
    pub since: TimeSpan,
}

/// Whether a waiting event's window has passed.
pub open spec fn is_due(w: Waiting, window: TimeSpan, now: TimeSpan) -> bool {
    w.since.nanos + window.nanos <= now.nanos
}

/// Whether every key has at most one waiting event.
pub open spec fn one_per_key(waiting: Seq<Waiting>) -> bool {
    forall|i: int, j: int|
        0 <= i < j < waiting.len() ==> key_of((#[trigger] waiting[i]).event) != key_of(
            (#[trigger] waiting[j]).event,
        )
}

/// Whether the event at `i` waits under the key.
pub open spec fn waits_at(waiting: Seq<Waiting>, key: EventKey, i: int) -> bool {
    0 <= i < waiting.len() && key_of(waiting[i].event) == key
}

/// The waiting events after one more arrived: it takes the place of the one
/// under its key, or else joins them.
pub open spec fn arrived(waiting: Seq<Waiting>, w: Waiting) -> Seq<Waiting> {
    if exists|i: int| waits_at(waiting, key_of(w.event), i) {
        waiting.update(choose|i: int| waits_at(waiting, key_of(w.event), i), w)
    } else {
        waiting.push(w)
    }
}

/// The events whose window has passed.
pub open spec fn due_events(waiting: Seq<Waiting>, window: TimeSpan, now: TimeSpan) -> Seq<
    StrandEventView,
>
    decreases waiting.len(),
{
    if waiting.len() == 0 {
        Seq::empty()
    } else if is_due(waiting.last(), window, now) {
        due_events(waiting.drop_last(), window, now).push(waiting.last().event)
    } else {
        due_events(waiting.drop_last(), window, now)
    }
}

/// The events that go on waiting.
pub open spec fn still_waiting(waiting: Seq<Waiting>, window: TimeSpan, now: TimeSpan) -> Seq<
    Waiting,
>
    decreases waiting.len(),
{
    if waiting.len() == 0 {
        Seq::empty()
    } else if is_due(waiting.last(), window, now) {
        still_waiting(waiting.drop_last(), window, now)
    } else {
        still_waiting(waiting.drop_last(), window, now).push(waiting.last())
    }
}

/// A queue after events were pushed onto it one by one, each under its name
/// and each in the place of the one it repeats.
pub open spec fn delivered(
    queue: Seq<PendingEventView>,
    events: Seq<StrandEventView>,
    ids: Seq<Seq<char>>,
) -> Seq<PendingEventView>
    decreases events.len(),
{
    if events.len() == 0 {
        queue
    } else {
        ports::replaced_or_pushed(
            delivered(queue, events.drop_last(), ids),
            events::pending_view(events.last(), ids[events.len() - 1]),
        )
    }
}

/// Debounces `StrandEvent`s on a per-file basis.
#[derive(Debug)]
pub struct DebounceEngine {
    window: TimeSpan,
    waiting: Vec<(StrandEvent, TimeSpan)>,
}

impl DebounceEngine {
    /// How long an event waits.
    pub closed spec fn window(&self) -> TimeSpan {
        self.window
    }

    /// The events that wait for their window to pass.
    pub closed spec fn waiting(&self) -> Seq<Waiting> {
        self.waiting@.map_values(
            |w: (StrandEvent, TimeSpan)| Waiting { event: w.0@, since: w.1 },
        )
    }

    #[verifier::type_invariant]
    closed spec fn well_formed(&self) -> bool {
        one_per_key(self.waiting())
    }

    /// An engine that holds events back for the given window.
    pub fn new(window: TimeSpan) -> (engine: Self)
        ensures
            engine.window() == window,
            engine.waiting() == Seq::<Waiting>::empty(),
            one_per_key(engine.waiting()),
    {
        let engine = DebounceEngine { window, waiting: Vec::new() };
        assert(engine.waiting() =~= Seq::empty());
        engine
    }

    /// Whether two events wait under the same key: the same file, watched
    /// by the same knot of the same loom.
    pub fn same_key(a: &StrandEvent, b: &StrandEvent) -> (same: bool)
        ensures
            same == (key_of(a@) == key_of(b@)),
    {
        let (a_loom, a_knot, a_path) = a.fields();
        let (b_loom, b_knot, b_path) = b.fields();
        same_path(a_path.0.as_str(), b_path.0.as_str()) && a_loom.0 == b_loom.0 && a_knot.0 == b_knot.0
    }

    /// Take in an event. It starts its window anew, and replaces an event
    /// that waits under the same key.
    pub fn arrive(&mut self, event: StrandEvent, now: TimeSpan)
        ensures
            final(self).window() == old(self).window(),
            final(self).waiting() == arrived(
                old(self).waiting(),
                Waiting { event: event@, since: now },
            ),
            one_per_key(final(self).waiting()),
    {
        proof {
            use_type_invariant(&*self);
        }
        let ghost before = self.waiting();
        let ghost w = Waiting { event: event@, since: now };
        let ghost key = key_of(event@);
        let mut waiting: Vec<(StrandEvent, TimeSpan)> = Vec::new();
        std::mem::swap(&mut waiting, &mut self.waiting);
        let mut found: Option<usize> = None;
        for i in 0..waiting.len()
            invariant
                before == waiting@.map_values(
                    |w: (StrandEvent, TimeSpan)| Waiting { event: w.0@, since: w.1 },
                ),
                key == key_of(event@),
                match found {
                    Some(k) => waits_at(before, key, k as int),
                    None => forall|j: int| 0 <= j < i ==> !waits_at(before, key, j),
                },
        {
            assert(before[i as int].event == waiting@[i as int].0@);
            if found.is_none() && Self::same_key(&waiting[i].0, &event) {
                assert(waits_at(before, key, i as int));
                found = Some(i);
            }
        }
        match found {
            Some(k) => {
                proof {
                    let c = choose|i: int| waits_at(before, key, i);
                    assert(waits_at(before, key, c));
                    if c < k {
                        assert(key_of(before[c].event) != key_of(before[k as int].event));
                    } else if k < c {
                        assert(key_of(before[k as int].event) != key_of(before[c].event));
                    }
                    arrival_keeps_one_per_key(before, w);
                }
                waiting.set(k, (event, now));
            },
            None => {
                proof {
                    arrival_keeps_one_per_key(before, w);
                }
                waiting.push((event, now));
            },
        }
        assert(waiting@.map_values(
            |w: (StrandEvent, TimeSpan)| Waiting { event: w.0@, since: w.1 },
        ) =~= arrived(before, w));
        self.waiting = waiting;
    }

    /// Take out the events whose window has passed.
    pub fn take_due(&mut self, now: TimeSpan) -> (due: Vec<StrandEvent>)
        ensures
            final(self).window() == old(self).window(),
            text::views(due@) == due_events(old(self).waiting(), old(self).window(), now),
            final(self).waiting() == still_waiting(old(self).waiting(), old(self).window(), now),
            one_per_key(final(self).waiting()),
    {
        broadcast use text::views_push;

        proof {
            use_type_invariant(&*self);
        }
        let ghost before = self.waiting();
        let window = self.window;
        let mut waiting: Vec<(StrandEvent, TimeSpan)> = Vec::new();
        std::mem::swap(&mut waiting, &mut self.waiting);
        let mut due: Vec<StrandEvent> = Vec::new();
        let mut kept: Vec<(StrandEvent, TimeSpan)> = Vec::new();
        assert(text::views(due@) =~= due_events(before.take(0), window, now));
        assert(kept@.map_values(
            |w: (StrandEvent, TimeSpan)| Waiting { event: w.0@, since: w.1 },
        ) =~= still_waiting(before.take(0), window, now));
        for i in 0..waiting.len()
            invariant
                before == waiting@.map_values(
                    |w: (StrandEvent, TimeSpan)| Waiting { event: w.0@, since: w.1 },
                ),
                text::views(due@) == due_events(before.take(i as int), window, now),
                kept@.map_values(
                    |w: (StrandEvent, TimeSpan)| Waiting { event: w.0@, since: w.1 },
                ) == still_waiting(before.take(i as int), window, now),
        {
            let (event, since) = &waiting[i];
            assert(before.take(i + 1).drop_last() =~= before.take(i as int));
            assert(before.take(i + 1).last() == Waiting { event: event@, since: *since });
            let ghost kept_before = kept@.map_values(
                |w: (StrandEvent, TimeSpan)| Waiting { event: w.0@, since: w.1 },
            );
            if since.nanos <= now.nanos && now.nanos - since.nanos >= window.nanos {
                due.push(event.clone());
            } else {
                kept.push((event.clone(), *since));
                assert(kept@.map_values(
                    |w: (StrandEvent, TimeSpan)| Waiting { event: w.0@, since: w.1 },
                ) =~= kept_before.push(Waiting { event: event@, since: *since }));
            }
        }
        assert(before.take(waiting.len() as int) =~= before);
        proof {
            waiting_on_keeps_one_per_key(before, window, now);
        }
        self.waiting = kept;
        due
    }

    /// Push events onto a queue, each under its name.
    pub fn deliver<Q: StrandEventQueue>(
        queue: &mut Q,
        events: &Vec<StrandEvent>,
        ids: Vec<PendingEventId>,
    )
        requires
            ids@.len() == events@.len(),
        ensures
            final(queue).events() == delivered(
                old(queue).events(),
                text::views(events@),
                text::views(ids@),
            ),
            final(queue).closed() == old(queue).closed(),
    {
        let ghost all = text::views(events@);
        let ghost names = text::views(ids@);
        assert(all.take(0) =~= Seq::empty());
        for i in 0..events.len()
            invariant
                ids@.len() == events@.len(),
                all == text::views(events@),
                names == text::views(ids@),
                queue.events() == delivered(old(queue).events(), all.take(i as int), names),
                queue.closed() == old(queue).closed(),
        {
            assert(all.take(i + 1).drop_last() =~= all.take(i as int));
            assert(all.take(i + 1).last() == events@[i as int]@);
            assert(names[i as int] == ids@[i as int]@);
            queue.push_or_replace(PendingEvent::from_strand_event(&events[i], ids[i].clone()));
        }
        assert(all.take(events.len() as int) =~= all);
    }

    /// Push every event that still waits onto a queue, then the shutdown
    /// sentinel: no more events will come.
    pub fn shut_down<Q: StrandEventQueue>(&mut self, queue: &mut Q, ids: Vec<PendingEventId>)
        requires
            ids@.len() == old(self).waiting().len(),
        ensures
            final(self).window() == old(self).window(),
            final(self).waiting() == Seq::<Waiting>::empty(),
            one_per_key(final(self).waiting()),
            final(queue).events() == delivered(
                old(queue).events(),
                old(self).waiting().map_values(|w: Waiting| w.event),
                text::views(ids@),
            ),
            final(queue).closed(),
    {
        broadcast use text::views_push;

        let ghost before = self.waiting();
        let ghost all = before.map_values(|w: Waiting| w.event);
        let mut waiting: Vec<(StrandEvent, TimeSpan)> = Vec::new();
        std::mem::swap(&mut waiting, &mut self.waiting);
        let mut events: Vec<StrandEvent> = Vec::new();
        assert(text::views(events@) =~= all.take(0));
        for i in 0..waiting.len()
            invariant
                before == waiting@.map_values(
                    |w: (StrandEvent, TimeSpan)| Waiting { event: w.0@, since: w.1 },
                ),
                all == before.map_values(|w: Waiting| w.event),
                text::views(events@) == all.take(i as int),
        {
            events.push(waiting[i].0.clone());
            assert(all[i as int] == waiting@[i as int].0@);
            assert(all.take(i + 1) =~= all.take(i as int).push(all[i as int]));
        }
        assert(all.take(waiting.len() as int) =~= all);
        assert(self.waiting() =~= Seq::empty());
        Self::deliver(queue, &events, ids);
        queue.push_shutdown();
    }

    /// How many events wait.
    pub fn waiting_count(&self) -> (n: usize)
        ensures
            n == self.waiting().len(),
    {
        self.waiting.len()
    }
}

// ── Laws ───────────────────────────────────────────────────────────────

/// After an event arrived, it is the only one that waits under its key: the
/// last of several rapid events wins. Every other key keeps its event.
pub proof fn last_arrival_wins(waiting: Seq<Waiting>, w: Waiting, key: EventKey)
    requires
        one_per_key(waiting),
    ensures
        arrived(waiting, w).contains(w),
        forall|i: int|
            waits_at(arrived(waiting, w), key_of(w.event), i) ==> (#[trigger] arrived(
                waiting,
                w,
            )[i]) == w,
        key != key_of(w.event) ==> forall|x: Waiting|
            key_of(x.event) == key ==> (waiting.contains(x) <==> #[trigger] arrived(
                waiting,
                w,
            ).contains(x)),
{
    let after = arrived(waiting, w);
    let k = key_of(w.event);
    if exists|i: int| waits_at(waiting, k, i) {
        let c = choose|i: int| waits_at(waiting, k, i);
        assert(after[c] == w);
        assert forall|i: int| waits_at(after, k, i) implies (#[trigger] after[i]) == w by {
            if i < c {
                assert(waiting[i] == after[i]);
                assert(key_of(waiting[i].event) != key_of(waiting[c].event));
            } else if c < i {
                assert(waiting[i] == after[i]);
                assert(key_of(waiting[c].event) != key_of(waiting[i].event));
            }
        }
        if key != k {
            assert forall|x: Waiting| key_of(x.event) == key implies (waiting.contains(x)
                <==> #[trigger] after.contains(x)) by {
                if waiting.contains(x) {
                    let i = choose|i: int| 0 <= i < waiting.len() && waiting[i] == x;
                    assert(after[i] == x);
                }
                if after.contains(x) {
                    let i = choose|i: int| 0 <= i < after.len() && after[i] == x;
                    assert(waiting[i] == x);
                }
            }
        }
    } else {
        assert(after[waiting.len() as int] == w);
        assert forall|i: int| waits_at(after, k, i) implies (#[trigger] after[i]) == w by {
            if i < waiting.len() {
                assert(waits_at(waiting, k, i));
            }
        }
        if key != k {
            assert forall|x: Waiting| key_of(x.event) == key implies (waiting.contains(x)
                <==> #[trigger] after.contains(x)) by {
                if waiting.contains(x) {
                    let i = choose|i: int| 0 <= i < waiting.len() && waiting[i] == x;
                    assert(after[i] == x);
                }
                if after.contains(x) {
                    let i = choose|i: int| 0 <= i < after.len() && after[i] == x;
                    assert(waiting[i] == x);
                }
            }
        }
    }
}

/// An arriving event never makes two events wait under one key.
pub proof fn arrival_keeps_one_per_key(waiting: Seq<Waiting>, w: Waiting)
    requires
        one_per_key(waiting),
    ensures
        one_per_key(arrived(waiting, w)),
{
    let after = arrived(waiting, w);
    let k = key_of(w.event);
    if !(exists|i: int| waits_at(waiting, k, i)) {
        assert forall|i: int, j: int| 0 <= i < j < after.len() implies key_of(
            (#[trigger] after[i]).event,
        ) != key_of((#[trigger] after[j]).event) by {
            if j == waiting.len() {
                assert(!waits_at(waiting, k, i));
            }
        }
    }
}

/// An event is due or goes on waiting, never both and never neither.
pub proof fn due_or_waiting(waiting: Seq<Waiting>, window: TimeSpan, now: TimeSpan, w: Waiting)
    ensures
        still_waiting(waiting, window, now).contains(w) <==> waiting.contains(w) && !is_due(
            w,
            window,
            now,
        ),
        waiting.contains(w) && is_due(w, window, now) ==> due_events(
            waiting,
            window,
            now,
        ).contains(w.event),
        due_events(waiting, window, now).len() + still_waiting(waiting, window, now).len()
            == waiting.len(),
    decreases waiting.len(),
{
    if waiting.len() > 0 {
        let rest = waiting.drop_last();
        let last = waiting.last();
        due_or_waiting(rest, window, now, w);
        assert(waiting =~= rest.push(last));
        assert(waiting.contains(w) <==> rest.contains(w) || w == last) by {
            if waiting.contains(w) {
                let i = choose|i: int| 0 <= i < waiting.len() && waiting[i] == w;
                if i < rest.len() {
                    assert(rest[i] == w);
                }
            }
            if rest.contains(w) {
                let i = choose|i: int| 0 <= i < rest.len() && rest[i] == w;
                assert(waiting[i] == w);
            }
            if w == last {
                assert(waiting[waiting.len() - 1] == w);
            }
        }
        let due = due_events(rest, window, now);
        let kept = still_waiting(rest, window, now);
        if is_due(last, window, now) {
            assert(due.push(last.event)[due.len() as int] == last.event);
            if due.contains(w.event) {
                let i = choose|i: int| 0 <= i < due.len() && due[i] == w.event;
                assert(due.push(last.event)[i] == w.event);
            }
        } else {
            assert(kept.push(last)[kept.len() as int] == last);
            if kept.contains(w) {
                let i = choose|i: int| 0 <= i < kept.len() && kept[i] == w;
                assert(kept.push(last)[i] == w);
            }
            if kept.push(last).contains(w) {
                let i = choose|i: int| 0 <= i < kept.push(last).len() && kept.push(last)[i] == w;
                if i < kept.len() {
                    assert(kept[i] == w);
                }
            }
        }
    }
}

proof fn waiting_on_keeps_one_per_key(waiting: Seq<Waiting>, window: TimeSpan, now: TimeSpan)
    requires
        one_per_key(waiting),
    ensures
        one_per_key(still_waiting(waiting, window, now)),
    decreases waiting.len(),
{
    if waiting.len() > 0 {
        let rest = waiting.drop_last();
        assert forall|i: int, j: int| 0 <= i < j < rest.len() implies key_of(
            (#[trigger] rest[i]).event,
        ) != key_of((#[trigger] rest[j]).event) by {
            assert(rest[i] == waiting[i] && rest[j] == waiting[j]);
        }
        waiting_on_keeps_one_per_key(rest, window, now);
        let kept = still_waiting(rest, window, now);
        if !is_due(waiting.last(), window, now) {
            let after = kept.push(waiting.last());
            assert forall|i: int, j: int| 0 <= i < j < after.len() implies key_of(
                (#[trigger] after[i]).event,
            ) != key_of((#[trigger] after[j]).event) by {
                if j == kept.len() {
                    due_or_waiting(rest, window, now, kept[i]);
                    assert(kept.contains(kept[i]));
                    let k = choose|k: int| 0 <= k < rest.len() && rest[k] == kept[i];
                    assert(waiting[k] == kept[i]);
                    assert(key_of(waiting[k].event) != key_of(waiting[waiting.len() - 1].event));
                }
            }
        }
    }
}

/// An event waits out its window and no longer: it is handed on at a time
/// exactly when the window has passed since it arrived, and until then it stays.
pub proof fn events_wait_out_their_window(
    waiting: Seq<Waiting>,
    window: TimeSpan,
    now: TimeSpan,
)
    ensures
        due_events(waiting, window, now) == waiting.filter(
            |w: Waiting| w.since.nanos + window.nanos <= now.nanos,
        ).map_values(|w: Waiting| w.event),
        still_waiting(waiting, window, now) == waiting.filter(
            |w: Waiting| now.nanos < w.since.nanos + window.nanos,
        ),
    decreases waiting.len(),
{
    reveal(Seq::filter);
    let due = |w: Waiting| w.since.nanos + window.nanos <= now.nanos;
    let event = |w: Waiting| w.event;
    if waiting.len() > 0 {
        let rest = waiting.drop_last();
        events_wait_out_their_window(rest, window, now);
        assert(waiting.filter(due).map_values(event) =~= if due(waiting.last()) {
            rest.filter(due).map_values(event).push(waiting.last().event)
        } else {
            rest.filter(due).map_values(event)
        });
    } else {
        assert(waiting.filter(due).map_values(event) =~= Seq::empty());
        assert(waiting =~= Seq::empty());
    }
}

/// Two events wait under the same key when they are about the same file, loom
/// and knot, whatever their kinds. An event about another loom or knot, or
/// about a path that stands for another file, waits on its own.
pub proof fn keys_are_file_loom_and_knot(a: StrandEventView, b: StrandEventView)
    ensures
        a.strand_path == b.strand_path && a.loom_id == b.loom_id && a.knot_id == b.knot_id
            ==> key_of(a) == key_of(b),
        a.loom_id != b.loom_id ==> key_of(a) != key_of(b),
        a.knot_id != b.knot_id ==> key_of(a) != key_of(b),
        paths::path_key(a.strand_path) != paths::path_key(b.strand_path) ==> key_of(a) != key_of(
            b,
        ),
{
}

/// A repeated event starts its window anew: of two about the same file, loom and
/// knot only the later one waits, in the place of the earlier, from its own
/// arrival on. An event that repeats none joins the others behind them.
pub proof fn repeated_events_wait_anew(
    waiting: Seq<Waiting>,
    event: StrandEventView,
    now: TimeSpan,
    i: int,
)
    requires
        one_per_key(waiting),
        0 <= i < waiting.len(),
        waiting[i].event.strand_path == event.strand_path,
        waiting[i].event.loom_id == event.loom_id,
        waiting[i].event.knot_id == event.knot_id,
    ensures
        arrived(waiting, Waiting { event, since: now }) == waiting.update(
            i,
            Waiting { event, since: now },
        ),
{
    let k = key_of(event);
    assert(waits_at(waiting, k, i));
    let c = choose|c: int| waits_at(waiting, k, c);
    assert(waits_at(waiting, k, c));
    if c < i {
        assert(key_of(waiting[c].event) != key_of(waiting[i].event));
    } else if i < c {
        assert(key_of(waiting[i].event) != key_of(waiting[c].event));
    }
}

/// An event about a loom or knot that nothing waits for waits behind the
/// others, which stay as they are.
pub proof fn new_events_wait_behind_the_others(
    waiting: Seq<Waiting>,
    event: StrandEventView,
    now: TimeSpan,
)
    requires
        forall|i: int|
            0 <= i < waiting.len() ==> (#[trigger] waiting[i]).event.loom_id != event.loom_id
                || waiting[i].event.knot_id != event.knot_id || paths::path_key(
                waiting[i].event.strand_path,
            ) != paths::path_key(event.strand_path),
    ensures
        arrived(waiting, Waiting { event, since: now }) == waiting.push(
            Waiting { event, since: now },
        ),
{
    if exists|i: int| waits_at(waiting, key_of(event), i) {
        let i = choose|i: int| waits_at(waiting, key_of(event), i);
        assert(waiting[i].event.loom_id == event.loom_id);
    }
}

/// Delivered events are queued under their names: one event more takes the
/// place of the first that is queued with the same kind, strand, loom and knot,
/// and otherwise joins the back.
pub proof fn events_are_delivered_under_their_names(
    queue: Seq<PendingEventView>,
    events: Seq<StrandEventView>,
    ids: Seq<Seq<char>>,
    event: StrandEventView,
)
    requires
        ids.len() > events.len(),
    ensures
        ({
            let before = delivered(queue, events, ids);
            let after = delivered(queue, events.push(event), ids);
            let pending = PendingEventView {
                id: ids[events.len() as int],
                kind: match event.kind {
                    events::KnotEventType::Created => "Created"@,
                    events::KnotEventType::Modified => "Modified"@,
                    events::KnotEventType::Deleted => "Deleted"@,
                },
                strand_path: event.strand_path,
                loom_id: event.loom_id,
                knot_id: event.knot_id,
            };
            &&& after == ports::replaced_or_pushed(before, pending)
            &&& delivered(queue, Seq::empty(), ids) == queue
        }),
{
    assert(events.push(event).drop_last() =~= events);
}

} // verus!
