//! In-memory run activity: the events of the current run.
//!
//! Loom events are kept per loom and rig events in one list, each in the
//! order in which they were appended. Nothing is persisted.

use crate::clock;
use crate::entities::LoomId;
use crate::errors::PortError;
use crate::events::{loom_id_of, LoomEvent, LoomEventView, RigLogEvent, RigLogEventView};
use crate::ports::{LoomLogCall, LoomLogPort, RigLogCall, RigLogPort};
use crate::ports;
use crate::text;
use vstd::prelude::*;

verus! {

/// Model of a [`RunActivity`].
pub struct RunActivityView {
    /// The loom events in append order, each with the loom it belongs to.
    pub loom: Seq<(Seq<char>, LoomEventView)>,
    /// The rig events in append order.
    pub rig: Seq<RigLogEventView>,
}

/// The events of one loom, in append order.
pub open spec fn events_of(
    events: Seq<(Seq<char>, LoomEventView)>,
    loom_id: Seq<char>,
) -> Seq<LoomEventView>
    decreases events.len(),
{
    if events.len() == 0 {
        Seq::empty()
    } else if events.last().0 == loom_id {
        events_of(events.drop_last(), loom_id).push(events.last().1)
    } else {
        events_of(events.drop_last(), loom_id)
    }
}

/// An appended event is the last one of its loom, and no other loom's
/// events change.
pub proof fn append_is_per_loom(
    events: Seq<(Seq<char>, LoomEventView)>,
    loom_id: Seq<char>,
    event: LoomEventView,
    other: Seq<char>,
)
    ensures
        events_of(events.push((loom_id, event)), loom_id) == events_of(events, loom_id).push(event),
        other != loom_id ==> events_of(events.push((loom_id, event)), other) == events_of(
            events,
            other,
        ),
{
    assert(events.push((loom_id, event)).drop_last() =~= events);
}

/// The events of the current run.
#[derive(Debug)]
pub struct RunActivity {
    loom_events: Vec<(String, LoomEvent)>,
    rig_events: Vec<RigLogEvent>,
}

impl View for RunActivity {
    type V = RunActivityView;

    closed spec fn view(&self) -> RunActivityView {
        RunActivityView {
            loom: self.loom_events@.map_values(|e: (String, LoomEvent)| (e.0@, e.1@)),
            rig: text::views(self.rig_events@),
        }
    }
}

impl RunActivity {
    /// Create an empty activity store.
    pub fn new() -> (activity: Self)
        ensures
            activity@.loom == Seq::<(Seq<char>, LoomEventView)>::empty(),
            activity@.rig == Seq::<RigLogEventView>::empty(),
    {
        RunActivity { loom_events: Vec::new(), rig_events: Vec::new() }
    }

    /// Append a loom event.
    pub fn append_loom(&mut self, loom_id: &str, event: LoomEvent)
        ensures
            final(self)@.loom == old(self)@.loom.push((loom_id@, event@)),
            final(self)@.rig == old(self)@.rig,
    {
        self.loom_events.push((loom_id.to_string(), event));
        assert(self@.loom =~= old(self)@.loom.push((loom_id@, event@)));
    }

    /// Append a rig event.
    pub fn append_rig(&mut self, event: RigLogEvent)
        ensures
            final(self)@.loom == old(self)@.loom,
            final(self)@.rig == old(self)@.rig.push(event@),
    {
        self.rig_events.push(event);
        assert(self@.rig =~= old(self)@.rig.push(event@));
    }

    /// All events recorded for one loom, in append order (empty if the
    /// loom was never seen this run).
    pub fn loom_events(&self, loom_id: &str) -> (events: Vec<LoomEvent>)
        ensures
            text::views(events@) == events_of(self@.loom, loom_id@),
    {
        broadcast use text::views_push;

        let wanted = loom_id.to_string();
        let ghost all = self@.loom;
        let mut events: Vec<LoomEvent> = Vec::new();
        assert(text::views(events@) =~= events_of(all.take(0), loom_id@));
        for i in 0..self.loom_events.len()
            invariant
                wanted@ == loom_id@,
                all == self@.loom,
                all.len() == self.loom_events@.len(),
                text::views(events@) == events_of(all.take(i as int), loom_id@),
        {
            let (id, event) = &self.loom_events[i];
            assert(all.take(i + 1).drop_last() =~= all.take(i as int));
            assert(all.take(i + 1).last() == (id@, event@));
            if *id == wanted {
                events.push(event.clone());
            }
        }
        assert(all.take(self.loom_events.len() as int) =~= all);
        events
    }

    /// All rig events, in append order.
    pub fn rig_events(&self) -> (events: Vec<RigLogEvent>)
        ensures
            text::views(events@) == self@.rig,
    {
        let events = self.rig_events.clone();
        assert(text::views(events@) =~= self@.rig);
        events
    }
}

/// [`LoomLogPort`] backed by an in-memory [`RunActivity`].
pub struct InMemoryLoomLog<'a> {
    /// The shared activity store.
    pub activity: &'a mut RunActivity,
    /// The calls made so far, with their answers.
    pub calls: Ghost<Seq<LoomLogCall>>,
}

impl<'a> InMemoryLoomLog<'a> {
    /// Create the adapter around a shared activity store.
    pub fn new(activity: &'a mut RunActivity) -> (log: Self)
        ensures
            *log.activity == *old(activity),
            *final(log.activity) == *final(activity),
            log.calls() == Seq::<LoomLogCall>::empty(),
    {
        InMemoryLoomLog { activity, calls: Ghost(Seq::empty()) }
    }

    /// The shared activity store.
    pub fn activity(&self) -> (activity: &RunActivity)
        ensures
            *activity == *old(self.activity),
    {
        &*self.activity
    }
}

impl<'a> LoomLogPort for InMemoryLoomLog<'a> {
    open spec fn calls(&self) -> Seq<LoomLogCall> {
        self.calls@
    }

    fn open(&mut self, loom_id: &LoomId) -> (answer: Result<(), PortError>)
        ensures
            answer is Ok,
            *final(self).activity == *old(self).activity,
            *final(final(self).activity) == *final(old(self).activity),
    {
        let answer: Result<(), PortError> = Ok(());
        self.calls = Ghost(
            self.calls@.push(LoomLogCall::Open { loom_id: loom_id@, answer: ports::done(answer) }),
        );
        answer
    }

    fn append(&mut self, event: LoomEvent) -> (answer: Result<(), PortError>)
        ensures
            answer is Ok,
            final(self).activity@.loom == old(self).activity@.loom.push(
                (event@.fact.loom_id(), event@),
            ),
            final(self).activity@.rig == old(self).activity@.rig,
            *final(final(self).activity) == *final(old(self).activity),
    {
        let answer: Result<(), PortError> = Ok(());
        self.calls = Ghost(
            self.calls@.push(
                LoomLogCall::Append {
                    fact: event@.fact,
                    stamped: clock::utc_time(event@.timestamp),
                    answer: ports::done(answer),
                },
            ),
        );
        let loom_id = loom_id_of(&event).0.clone();
        self.activity.append_loom(loom_id.as_str(), event);
        answer
    }

    fn read_all(&mut self, loom_id: &LoomId) -> (answer: Result<Vec<LoomEvent>, PortError>)
        ensures
            answer matches Ok(events) && text::views(events@) == events_of(
                old(self).activity@.loom,
                loom_id@,
            ),
            *final(self).activity == *old(self).activity,
            *final(final(self).activity) == *final(old(self).activity),
    {
        let answer: Result<Vec<LoomEvent>, PortError> = Ok(
            self.activity.loom_events(loom_id.0.as_str()),
        );
        self.calls = Ghost(
            self.calls@.push(
                LoomLogCall::ReadAll { loom_id: loom_id@, answer: ports::answered_all(answer) },
            ),
        );
        answer
    }
}

/// [`RigLogPort`] backed by an in-memory [`RunActivity`].
pub struct InMemoryRigLog<'a> {
    /// The shared activity store.
    pub activity: &'a mut RunActivity,
    /// The calls made so far, with their answers.
    pub calls: Ghost<Seq<RigLogCall>>,
}

impl<'a> InMemoryRigLog<'a> {
    /// Create the adapter around a shared activity store.
    pub fn new(activity: &'a mut RunActivity) -> (log: Self)
        ensures
            *log.activity == *old(activity),
            *final(log.activity) == *final(activity),
            log.calls() == Seq::<RigLogCall>::empty(),
    {
        InMemoryRigLog { activity, calls: Ghost(Seq::empty()) }
    }
}

impl<'a> RigLogPort for InMemoryRigLog<'a> {
    open spec fn calls(&self) -> Seq<RigLogCall> {
        self.calls@
    }

    fn append(&mut self, event: RigLogEvent) -> (answer: Result<(), PortError>)
        ensures
            answer is Ok,
            final(self).activity@.loom == old(self).activity@.loom,
            final(self).activity@.rig == old(self).activity@.rig.push(event@),
            *final(final(self).activity) == *final(old(self).activity),
    {
        let answer: Result<(), PortError> = Ok(());
        self.calls = Ghost(
            self.calls@.push(
                RigLogCall::Append {
                    fact: event@.fact,
                    stamped: clock::utc_time(event@.timestamp),
                    answer: ports::done(answer),
                },
            ),
        );
        self.activity.append_rig(event);
        answer
    }

    fn read_all(&mut self) -> (answer: Result<Vec<RigLogEvent>, PortError>)
        ensures
            answer matches Ok(events) && text::views(events@) == old(self).activity@.rig,
            *final(self).activity == *old(self).activity,
            *final(final(self).activity) == *final(old(self).activity),
    {
        let answer: Result<Vec<RigLogEvent>, PortError> = Ok(self.activity.rig_events());
        self.calls = Ghost(
            self.calls@.push(RigLogCall::ReadAll { answer: ports::answered_all(answer) }),
        );
        answer
    }
}

/// The events of a loom are those that were appended for it, in order, and no
/// others.
pub proof fn events_are_kept_per_loom(
    events: Seq<(Seq<char>, LoomEventView)>,
    loom_id: Seq<char>,
)
    ensures
        events_of(events, loom_id) == events.filter(
            |e: (Seq<char>, LoomEventView)| e.0 == loom_id,
        ).map_values(|e: (Seq<char>, LoomEventView)| e.1),
    decreases events.len(),
{
    reveal(Seq::filter);
    let own = |e: (Seq<char>, LoomEventView)| e.0 == loom_id;
    let event = |e: (Seq<char>, LoomEventView)| e.1;
    if events.len() > 0 {
        let rest = events.drop_last();
        events_are_kept_per_loom(rest, loom_id);
        assert(events.filter(own).map_values(event) =~= if own(events.last()) {
            rest.filter(own).map_values(event).push(events.last().1)
        } else {
            rest.filter(own).map_values(event)
        });
    } else {
        assert(events.filter(own).map_values(event) =~= Seq::empty());
    }
}

} // verus!
