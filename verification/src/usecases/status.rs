//! Use cases that read the loom logs back: the status of a knot, and the
//! snapshot of the rig.

use crate::clock;
use crate::clock::format_timestamp;
use crate::entities::{
    AgentProfileView, Knot, KnotId, KnotView, Loom, LoomId, LoomView, StrandPath,
    TieOffPath,
};
use crate::errors::{PortError, PortErrorView};
use crate::events::{LoomEvent, LoomEventView, LoomFact};
use crate::ports;
use crate::ports::{
    AgentProfileRepository, Answer, LoomLogCall, LoomLogPort, ProcessingStatus, ProfileCall,
    StateWrite, StateWriterPort,
};
use crate::rig_state::{
    RigState, RigStateKnot, RigStateKnotView, RigStateLoom, RigStateLoomView, RigStateProfile,
    RigStateProfileView, RigStateView,
};
use crate::store::LoomStore;
use crate::text;
use vstd::prelude::*;
use vstd::string::*;

verus! {

// ── The latest event of a knot ─────────────────────────────────────────

/// Whether an event tells of the knot's own processing.
pub open spec fn concerns(fact: LoomFact, knot: Seq<char>) -> bool {
    match fact {
        LoomFact::KnotRegistered { knot_id, .. } => knot_id == knot,
        LoomFact::KnotProcessing { knot_id, .. } => knot_id == knot,
        LoomFact::KnotCompleted { knot_id, .. } => knot_id == knot,
        LoomFact::KnotFailed { knot_id, .. } => knot_id == knot,
        _ => false,
    }
}

/// The last of the events that tells of the knot's own processing.
pub open spec fn latest(events: Seq<LoomEventView>, knot: Seq<char>) -> Option<LoomEventView>
    decreases events.len(),
{
    if events.len() == 0 {
        None
    } else if concerns(events.last().fact, knot) {
        Some(events.last())
    } else {
        latest(events.drop_last(), knot)
    }
}

fn is_about(event: &LoomEvent, knot: &KnotId) -> (yes: bool)
    ensures
        yes == concerns(event@.fact, knot@),
{
    match event {
        LoomEvent::KnotRegistered { knot_id, .. } => knot_id.0 == knot.0,
        LoomEvent::KnotProcessing { knot_id, .. } => knot_id.0 == knot.0,
        LoomEvent::KnotCompleted { knot_id, .. } => knot_id.0 == knot.0,
        LoomEvent::KnotFailed { knot_id, .. } => knot_id.0 == knot.0,
        _ => false,
    }
}

/// The last of the events that tells of the knot's own processing.
fn find_latest<'a>(events: &'a Vec<LoomEvent>, knot_id: &KnotId) -> (found: Option<&'a LoomEvent>)
    ensures
        latest(text::views(events@), knot_id@) == (match found {
            Some(event) => Some(event@),
            None => None,
        }),
        found matches Some(event) ==> concerns(event@.fact, knot_id@),
{
    let ghost all = text::views(events@);
    let mut n: usize = events.len();
    assert(all.take(n as int) =~= all);
    while n > 0
        invariant
            n <= events@.len(),
            all == text::views(events@),
            latest(all, knot_id@) == latest(all.take(n as int), knot_id@),
        decreases n,
    {
        let event = &events[n - 1];
        assert(all.take(n as int).last() == event@);
        assert(all.take(n as int).drop_last() =~= all.take(n - 1));
        if is_about(event, knot_id) {
            return Some(event);
        }
        n = n - 1;
    }
    None
}

// ── Knot status ────────────────────────────────────────────────────────

/// Result of the `GetKnotStatus` use case.
#[derive(Debug, PartialEq, Eq)]
pub struct KnotStatus {
    /// The knot whose status was retrieved.
    pub knot_id: KnotId,
    /// The loom this knot belongs to.
    pub loom_id: LoomId,
    /// The current processing status.
    pub status: ProcessingStatus,
    /// Path to the last strand processed (if any).
    pub last_strand_path: Option<StrandPath>,
    /// Path to the last tie-off produced (if any).
    pub last_tie_off_path: Option<TieOffPath>,
    /// Error message from the last failed processing (if any).
    pub last_error: Option<String>,
}

/// Model of a [`KnotStatus`].
pub struct KnotStatusView {
    pub knot_id: Seq<char>,
    pub loom_id: Seq<char>,
    pub status: ProcessingStatus,
    pub last_strand_path: Option<Seq<char>>,
    pub last_tie_off_path: Option<Seq<char>>,
    pub last_error: Option<Seq<char>>,
}

impl View for KnotStatus {
    type V = KnotStatusView;

    open spec fn view(&self) -> KnotStatusView {
        KnotStatusView {
            knot_id: self.knot_id@,
            loom_id: self.loom_id@,
            status: self.status,
            last_strand_path: text::opt_view(self.last_strand_path),
            last_tie_off_path: text::opt_view(self.last_tie_off_path),
            last_error: text::opt_text(self.last_error),
        }
    }
}

impl Clone for KnotStatus {
    fn clone(&self) -> (copy: Self)
        ensures
            copy@ == self@,
    {
        KnotStatus {
            knot_id: self.knot_id.clone(),
            loom_id: self.loom_id.clone(),
            status: self.status,
            last_strand_path: match &self.last_strand_path {
                Some(path) => Some(path.clone()),
                None => None,
            },
            last_tie_off_path: match &self.last_tie_off_path {
                Some(path) => Some(path.clone()),
                None => None,
            },
            last_error: text::clone_opt(&self.last_error),
        }
    }
}

/// The status that an event tells of: idle, where it tells of no processing.
pub open spec fn status_of(loom_id: Seq<char>, knot_id: Seq<char>, fact: LoomFact) -> KnotStatusView {
    let idle = KnotStatusView {
        knot_id,
        loom_id,
        status: ProcessingStatus::Idle,
        last_strand_path: None,
        last_tie_off_path: None,
        last_error: None,
    };
    match fact {
        LoomFact::KnotProcessing { strand_path, .. } => KnotStatusView {
            status: ProcessingStatus::Processing,
            last_strand_path: Some(strand_path),
            ..idle
        },
        LoomFact::KnotCompleted { strand_path, tie_off_path, .. } => KnotStatusView {
            status: ProcessingStatus::Completed,
            last_strand_path: Some(strand_path),
            last_tie_off_path: Some(tie_off_path),
            ..idle
        },
        LoomFact::KnotFailed { strand_path, error, .. } => KnotStatusView {
            status: ProcessingStatus::Failed,
            last_strand_path: Some(strand_path),
            last_error: Some(error),
            ..idle
        },
        _ => idle,
    }
}

/// The status that a log tells of, or why it tells of none.
pub open spec fn status_in(
    loom_id: Seq<char>,
    knot_id: Seq<char>,
    read: Answer<Seq<LoomEventView>>,
) -> Answer<KnotStatusView> {
    match read {
        Err(_) => Err(
            PortErrorView::KnotStatusDeriveFailed(
                "failed to read loom-log for loom '"@ + loom_id + "'"@,
            ),
        ),
        Ok(events) => match latest(events, knot_id) {
            Some(event) => Ok(status_of(loom_id, knot_id, event.fact)),
            None => Err(
                PortErrorView::KnotStatusDeriveFailed(
                    "no events found for knot '"@ + knot_id + "' in loom '"@ + loom_id + "'"@,
                ),
            ),
        },
    }
}

/// Use case: get the current processing state of a knot.
pub struct GetKnotStatus<L: LoomLogPort> {
    pub store: LoomStore,
    pub log_port: L,
}

impl<L: LoomLogPort> GetKnotStatus<L> {
    /// Create a new `GetKnotStatus` use case.
    pub fn new(store: LoomStore, log_port: L) -> (use_case: Self)
        ensures
            use_case == (GetKnotStatus { store, log_port }),
    {
        GetKnotStatus { store, log_port }
    }

    /// Derive the current status for the given knot from loom-log events.
    pub fn execute(&mut self, loom_id: &LoomId, knot_id: &KnotId) -> (result: Result<
        KnotStatus,
        PortError,
    >)
        ensures
            final(self).store == old(self).store,
            if old(self).store@.contains_key(loom_id@) {
                exists|read: Answer<Seq<LoomEventView>>|
                    {
                        &&& final(self).log_port.calls() == old(self).log_port.calls().push(
                            LoomLogCall::ReadAll { loom_id: loom_id@, answer: read },
                        )
                        &&& ports::answered(result) == #[trigger] status_in(
                            loom_id@,
                            knot_id@,
                            read,
                        )
                    }
            } else {
                &&& final(self).log_port.calls() == old(self).log_port.calls()
                &&& ports::answered(result) == Err::<KnotStatusView, PortErrorView>(
                    PortErrorView::KnotStatusDeriveFailed(
                        "loom '"@ + loom_id@ + "' not found"@,
                    ),
                )
            },
    {
        if self.store.get(loom_id).is_none() {
            let mut message = "loom '".to_string();
            message.append(loom_id.0.as_str());
            message.append("' not found");
            return Err(PortError::KnotStatusDeriveFailed(message));
        }
        let read = self.log_port.read_all(loom_id);
        let ghost expected = status_in(loom_id@, knot_id@, ports::answered_all(read));
        match read {
            Err(_) => {
                let mut message = "failed to read loom-log for loom '".to_string();
                message.append(loom_id.0.as_str());
                message.append("'");
                Err(PortError::KnotStatusDeriveFailed(message))
            },
            Ok(events) => match Self::find_latest_knot_event(&events, knot_id) {
                Some(event) => Ok(Self::derive_status(loom_id, knot_id, event)),
                None => {
                    let mut message = "no events found for knot '".to_string();
                    message.append(knot_id.0.as_str());
                    message.append("' in loom '");
                    message.append(loom_id.0.as_str());
                    message.append("'");
                    Err(PortError::KnotStatusDeriveFailed(message))
                },
            },
        }
    }

    /// Find the latest loom event that references the given knot.
    fn find_latest_knot_event<'a>(events: &'a Vec<LoomEvent>, knot_id: &KnotId) -> (found: Option<
        &'a LoomEvent,
    >)
        ensures
            latest(text::views(events@), knot_id@) == (match found {
                Some(event) => Some(event@),
                None => None,
            }),
    {
        find_latest(events, knot_id)
    }

    /// Derive a `KnotStatus` from a single loom event.
    fn derive_status(loom_id: &LoomId, knot_id: &KnotId, event: &LoomEvent) -> (status: KnotStatus)
        ensures
            status@ == status_of(loom_id@, knot_id@, event@.fact),
    {
        let mut status = KnotStatus {
            knot_id: knot_id.clone(),
            loom_id: loom_id.clone(),
            status: ProcessingStatus::Idle,
            last_strand_path: None,
            last_tie_off_path: None,
            last_error: None,
        };
        match event {
            LoomEvent::KnotProcessing { strand_path, .. } => {
                status.status = ProcessingStatus::Processing;
                status.last_strand_path = Some(strand_path.clone());
            },
            LoomEvent::KnotCompleted { strand_path, tie_off_path, .. } => {
                status.status = ProcessingStatus::Completed;
                status.last_strand_path = Some(strand_path.clone());
                status.last_tie_off_path = Some(tie_off_path.clone());
            },
            LoomEvent::KnotFailed { strand_path, error, .. } => {
                status.status = ProcessingStatus::Failed;
                status.last_strand_path = Some(strand_path.clone());
                status.last_error = Some(error.clone());
            },
            _ => {},
        }
        status
    }
}

// ── Rig state ──────────────────────────────────────────────────────────

/// The name of a status in the snapshot.
pub open spec fn status_name(status: ProcessingStatus) -> Seq<char> {
    match status {
        ProcessingStatus::Idle => "idle"@,
        ProcessingStatus::Processing => "processing"@,
        ProcessingStatus::Completed => "completed"@,
        ProcessingStatus::Failed => "failed"@,
    }
}

/// A knot in the snapshot, by the latest event that its loom's log tells of:
/// idle, where there is none or the log cannot be read.
pub open spec fn knot_state(
    loom_id: Seq<char>,
    knot_id: Seq<char>,
    read: Answer<Seq<LoomEventView>>,
) -> RigStateKnotView {
    let event = match read {
        Ok(events) => latest(events, knot_id),
        Err(_) => None,
    };
    match event {
        Some(e) => {
            let status = status_of(loom_id, knot_id, e.fact);
            RigStateKnotView {
                id: knot_id,
                status: status_name(status.status),
                last_strand_path: status.last_strand_path,
                last_tie_off_path: status.last_tie_off_path,
                last_error: status.last_error,
                last_event_at: Some(e.timestamp),
            }
        },
        None => RigStateKnotView {
            id: knot_id,
            status: "idle"@,
            last_strand_path: None,
            last_tie_off_path: None,
            last_error: None,
            last_event_at: None,
        },
    }
}

/// The knots of a loom in the snapshot, each by a reading of the log.
pub open spec fn knot_states(
    loom_id: Seq<char>,
    knots: Seq<KnotView>,
    reads: Seq<Answer<Seq<LoomEventView>>>,
) -> Seq<RigStateKnotView> {
    Seq::new(knots.len(), |i: int| knot_state(loom_id, knots[i].id, reads[i]))
}

/// The readings of a loom's log, one per knot.
pub open spec fn read_calls(
    loom_id: Seq<char>,
    knots: Seq<KnotView>,
    reads: Seq<Answer<Seq<LoomEventView>>>,
) -> Seq<LoomLogCall> {
    Seq::new(knots.len(), |i: int| LoomLogCall::ReadAll { loom_id, answer: reads[i] })
}

/// The looms in the snapshot.
pub open spec fn loom_states(
    looms: Seq<LoomView>,
    reads: Seq<Seq<Answer<Seq<LoomEventView>>>>,
) -> Seq<RigStateLoomView> {
    Seq::new(
        looms.len(),
        |i: int|
            RigStateLoomView {
                id: looms[i].id,
                knots: knot_states(looms[i].id, looms[i].knots, reads[i]),
            },
    )
}

/// The readings of all looms' logs, in order.
pub open spec fn all_read_calls(
    looms: Seq<LoomView>,
    reads: Seq<Seq<Answer<Seq<LoomEventView>>>>,
) -> Seq<LoomLogCall>
    decreases looms.len(),
{
    if looms.len() == 0 {
        Seq::empty()
    } else {
        all_read_calls(looms.drop_last(), reads) + read_calls(
            looms.last().id,
            looms.last().knots,
            reads[looms.len() - 1],
        )
    }
}

/// A profile in the snapshot.
pub open spec fn profile_state(profile: AgentProfileView) -> RigStateProfileView {
    RigStateProfileView {
        name: profile.name,
        model_ref: None,
        provider: Some(profile.provider),
        model: Some(profile.model),
        thinking_level: None,
        timeout: profile.timeout,
    }
}

/// The profiles in the snapshot.
pub open spec fn profile_states(profiles: Seq<AgentProfileView>) -> Seq<RigStateProfileView> {
    profiles.map_values(|profile: AgentProfileView| profile_state(profile))
}

/// The snapshot is of this rig, with these looms and profiles. When it was
/// taken is left open.
pub open spec fn snapshot_of(
    state: RigStateView,
    rig_dir: Seq<char>,
    looms: Seq<LoomView>,
    reads: Seq<Seq<Answer<Seq<LoomEventView>>>>,
    profiles: Seq<AgentProfileView>,
) -> bool {
    &&& state.rig_path == rig_dir
    &&& state.looms == loom_states(looms, reads)
    &&& state.profiles == profile_states(profiles)
    &&& state.strand_queue == Seq::<crate::rig_state::RigStateStrandQueueEntryView>::empty()
    &&& clock::utc_time(state.updated_at)
}

proof fn read_calls_are_kept(
    looms: Seq<LoomView>,
    reads: Seq<Seq<Answer<Seq<LoomEventView>>>>,
    more: Seq<Seq<Answer<Seq<LoomEventView>>>>,
)
    requires
        looms.len() <= reads.len() <= more.len(),
        forall|i: int| 0 <= i < reads.len() ==> reads[i] == more[i],
    ensures
        all_read_calls(looms, reads) == all_read_calls(looms, more),
    decreases looms.len(),
{
    if looms.len() > 0 {
        read_calls_are_kept(looms.drop_last(), reads, more);
    }
}

/// Use case: snapshot the rig's current state.
pub struct WriteState<L: LoomLogPort, P: AgentProfileRepository, W: StateWriterPort> {
    pub store: LoomStore,
    pub log_port: L,
    pub profile_repo: P,
    pub state_writer: W,
    pub rig_dir: String,
}

impl<L: LoomLogPort, P: AgentProfileRepository, W: StateWriterPort> WriteState<L, P, W> {
    /// Create a new `WriteState` use case.
    pub fn new(
        store: LoomStore,
        log_port: L,
        profile_repo: P,
        state_writer: W,
        rig_dir: String,
    ) -> (use_case: Self)
        ensures
            use_case == (WriteState { store, log_port, profile_repo, state_writer, rig_dir }),
    {
        WriteState { store, log_port, profile_repo, state_writer, rig_dir }
    }

    /// Derive the processing status for a knot from its loom's log.
    fn derive_knot_state(&mut self, loom_id: &LoomId, knot_id: &KnotId) -> (r: (
        RigStateKnot,
        Ghost<Answer<Seq<LoomEventView>>>,
    ))
        ensures
            r.0@ == knot_state(loom_id@, knot_id@, r.1@),
            final(self).log_port.calls() == old(self).log_port.calls().push(
                LoomLogCall::ReadAll { loom_id: loom_id@, answer: r.1@ },
            ),
            final(self).store == old(self).store,
            final(self).profile_repo == old(self).profile_repo,
            final(self).state_writer == old(self).state_writer,
            final(self).rig_dir == old(self).rig_dir,
    {
        let answer = self.log_port.read_all(loom_id);
        let ghost read = ports::answered_all(answer);
        let mut state = RigStateKnot {
            id: knot_id.0.clone(),
            status: "idle".to_string(),
            last_strand_path: None,
            last_tie_off_path: None,
            last_error: None,
            last_event_at: None,
        };
        if let Ok(events) = answer {
            match find_latest(&events, knot_id) {
                Some(LoomEvent::KnotRegistered { timestamp, .. }) => {
                    state.last_event_at = Some(timestamp.clone());
                },
                Some(LoomEvent::KnotProcessing { strand_path, timestamp, .. }) => {
                    state.status = "processing".to_string();
                    state.last_strand_path = Some(strand_path.0.clone());
                    state.last_event_at = Some(timestamp.clone());
                },
                Some(LoomEvent::KnotCompleted { strand_path, tie_off_path, timestamp, .. }) => {
                    state.status = "completed".to_string();
                    state.last_strand_path = Some(strand_path.0.clone());
                    state.last_tie_off_path = Some(tie_off_path.0.clone());
                    state.last_event_at = Some(timestamp.clone());
                },
                Some(LoomEvent::KnotFailed { strand_path, error, timestamp, .. }) => {
                    state.status = "failed".to_string();
                    state.last_strand_path = Some(strand_path.0.clone());
                    state.last_error = Some(error.clone());
                    state.last_event_at = Some(timestamp.clone());
                },
                _ => {},
            }
        }
        (state, Ghost(read))
    }

    /// The knots of a loom in the snapshot.
    fn derive_loom_state(&mut self, loom: &Loom) -> (r: (
        RigStateLoom,
        Ghost<Seq<Answer<Seq<LoomEventView>>>>,
    ))
        ensures
            r.0@.id == loom@.id,
            r.0@.knots == knot_states(loom@.id, loom@.knots, r.1@),
            final(self).log_port.calls() == old(self).log_port.calls() + read_calls(
                loom@.id,
                loom@.knots,
                r.1@,
            ),
            final(self).store == old(self).store,
            final(self).profile_repo == old(self).profile_repo,
            final(self).state_writer == old(self).state_writer,
            final(self).rig_dir == old(self).rig_dir,
    {
        let mut knots: Vec<RigStateKnot> = Vec::new();
        let ghost mut reads: Seq<Answer<Seq<LoomEventView>>> = Seq::empty();
        let ghost log = self.log_port.calls();
        let ghost all = loom@.knots;
        assert(self.log_port.calls() =~= log + read_calls(loom@.id, all.take(0), reads));
        for i in 0..loom.knots.len()
            invariant
                all == loom@.knots,
                log == old(self).log_port.calls(),
                reads.len() == i,
                text::views(knots@) =~= knot_states(loom@.id, all.take(i as int), reads),
                self.log_port.calls() == log + read_calls(loom@.id, all.take(i as int), reads),
                self.store == old(self).store,
                self.profile_repo == old(self).profile_repo,
                self.state_writer == old(self).state_writer,
                self.rig_dir == old(self).rig_dir,
        {
            broadcast use text::views_push;

            let (state, Ghost(read)) = self.derive_knot_state(&loom.id, &loom.knots[i].id);
            let ghost more = reads.push(read);
            assert(all[i as int] == loom.knots@[i as int]@);
            assert(knot_states(loom@.id, all.take(i + 1), more) =~= knot_states(
                loom@.id,
                all.take(i as int),
                reads,
            ).push(state@));
            assert(log + read_calls(loom@.id, all.take(i + 1), more) =~= (log + read_calls(
                loom@.id,
                all.take(i as int),
                reads,
            )).push(LoomLogCall::ReadAll { loom_id: loom@.id, answer: read }));
            knots.push(state);
            proof {
                reads = more;
            }
        }
        assert(all.take(loom.knots@.len() as int) =~= all);
        (RigStateLoom { id: loom.id.0.clone(), knots }, Ghost(reads))
    }

    /// Build a `RigState` snapshot from current in-memory state.
    ///
    /// Returns the `RigState`: the caller is responsible for writing it. It
    /// fails only where the profiles cannot be listed.
    pub fn build_state(&mut self) -> (result: Result<RigState, PortError>)
        ensures
            final(self).store == old(self).store,
            final(self).state_writer == old(self).state_writer,
            final(self).rig_dir == old(self).rig_dir,
            exists|
                profiles: Answer<Seq<AgentProfileView>>,
                reads: Seq<Seq<Answer<Seq<LoomEventView>>>>,
            | #[trigger]
                state_built(
                    *old(self),
                    *final(self),
                    profiles,
                    reads,
                    ports::answered(result),
                ),
    {
        let looms = self.store.list();
        let ghost all = text::views(looms@);
        let ghost log = self.log_port.calls();
        let ghost mut reads: Seq<Seq<Answer<Seq<LoomEventView>>>> = Seq::empty();
        let listed = self.profile_repo.list();
        let ghost given = ports::answered_all(listed);
        let profiles = match listed {
            Ok(profiles) => profiles,
            Err(e) => {
                assert(state_built(*old(self), *self, given, reads, Err(e@)));
                return Err(e);
            },
        };
        let ghost repo = self.profile_repo;
        let mut loom_list: Vec<RigStateLoom> = Vec::new();
        assert(all.take(0) =~= Seq::empty());
        assert(self.log_port.calls() =~= log + all_read_calls(all.take(0), reads));
        for i in 0..looms.len()
            invariant
                all == text::views(looms@),
                all == old(self).store.listing(),
                log == old(self).log_port.calls(),
                reads.len() == i,
                text::views(loom_list@) =~= loom_states(all.take(i as int), reads),
                self.log_port.calls() == log + all_read_calls(all.take(i as int), reads),
                self.store == old(self).store,
                self.profile_repo == repo,
                self.state_writer == old(self).state_writer,
                self.rig_dir == old(self).rig_dir,
        {
            broadcast use text::views_push;

            let (state, Ghost(read)) = self.derive_loom_state(&looms[i]);
            let ghost more = reads.push(read);
            proof {
                assert(all[i as int] == looms@[i as int]@);
                assert(all.take(i + 1).drop_last() =~= all.take(i as int));
                assert(all.take(i + 1).last() == all[i as int]);
                read_calls_are_kept(all.take(i as int), reads, more);
                assert(loom_states(all.take(i + 1), more) =~= loom_states(
                    all.take(i as int),
                    reads,
                ).push(state@));
                assert(log + all_read_calls(all.take(i + 1), more) =~= (log + all_read_calls(
                    all.take(i as int),
                    reads,
                )) + read_calls(all[i as int].id, all[i as int].knots, read));
                reads = more;
            }
            loom_list.push(state);
        }
        assert(all.take(looms@.len() as int) =~= all);
        let ghost named = text::views(profiles@);
        let mut profile_list: Vec<RigStateProfile> = Vec::new();
        for i in 0..profiles.len()
            invariant
                named == text::views(profiles@),
                text::views(profile_list@) =~= profile_states(named).take(i as int),
        {
            broadcast use text::views_push;

            let profile = &profiles[i];
            assert(named[i as int] == profile@);
            profile_list.push(
                RigStateProfile {
                    name: profile.name.clone(),
                    model_ref: None,
                    provider: Some(profile.provider.clone()),
                    model: Some(profile.model.clone()),
                    thinking_level: None,
                    timeout: profile.timeout,
                },
            );
        }
        assert(profile_states(named).take(profiles@.len() as int) =~= profile_states(named));
        let state = RigState {
            rig_path: self.rig_dir.clone(),
            looms: loom_list,
            profiles: profile_list,
            strand_queue: Vec::new(),
            updated_at: format_timestamp(),
        };
        assert(state@.strand_queue =~= Seq::empty());
        assert(state_built(*old(self), *self, given, reads, Ok(state@)));
        Ok(state)
    }

    /// Build the state and write it: exactly once where it could be built, and
    /// the result is the writer's answer then.
    pub fn execute(&mut self) -> (result: Result<(), PortError>)
        ensures
            final(self).store == old(self).store,
            final(self).rig_dir == old(self).rig_dir,
            exists|
                profiles: Answer<Seq<AgentProfileView>>,
                reads: Seq<Seq<Answer<Seq<LoomEventView>>>>,
                state: Answer<RigStateView>,
            |
                {
                    &&& #[trigger] state_built(*old(self), *final(self), profiles, reads, state)
                    &&& match state {
                        Ok(built) => final(self).state_writer.calls() == old(
                            self,
                        ).state_writer.calls().push(
                            StateWrite { state: built, answer: ports::done(result) },
                        ),
                        Err(e) => final(self).state_writer == old(self).state_writer
                            && ports::done(result) == Err::<(), PortErrorView>(e),
                    }
                },
    {
        let built = self.build_state();
        let ghost given = ports::answered(built);
        let ghost (profiles, reads) = choose|
            profiles: Answer<Seq<AgentProfileView>>,
            reads: Seq<Seq<Answer<Seq<LoomEventView>>>>,
        | #[trigger]
            state_built(*old(self), *self, profiles, reads, given);
        let ghost middle = *self;
        match built {
            Ok(state) => {
                let result = self.state_writer.write_state(&state);
                assert(state_built(*old(self), middle, profiles, reads, given));
                assert(state_built(*old(self), *self, profiles, reads, given));
                result
            },
            Err(e) => {
                assert(state_built(*old(self), *self, profiles, reads, given));
                Err(e)
            },
        }
    }
}

/// A snapshot was built: the profiles were listed, then every loom's log was
/// read once per knot, and the result tells what was found.
pub open spec fn state_built<L: LoomLogPort, P: AgentProfileRepository, W: StateWriterPort>(
    before: WriteState<L, P, W>,
    after: WriteState<L, P, W>,
    profiles: Answer<Seq<AgentProfileView>>,
    reads: Seq<Seq<Answer<Seq<LoomEventView>>>>,
    result: Answer<RigStateView>,
) -> bool {
    let looms = before.store.listing();
    &&& after.profile_repo.calls() == before.profile_repo.calls().push(
        ProfileCall::List { answer: profiles },
    )
    &&& match profiles {
        Ok(named) => {
            &&& after.log_port.calls() == before.log_port.calls() + all_read_calls(looms, reads)
            &&& result is Ok
            &&& snapshot_of(result->Ok_0, before.rig_dir@, looms, reads, named)
        },
        Err(e) => {
            &&& after.log_port.calls() == before.log_port.calls()
            &&& result == Err::<RigStateView, PortErrorView>(e)
        },
    }
}

// ── Laws ───────────────────────────────────────────────────────────────

/// The latest event wins: an event of the knot's processing behind all others
/// decides the status alone.
pub proof fn latest_event_wins(
    loom_id: Seq<char>,
    knot_id: Seq<char>,
    events: Seq<LoomEventView>,
    event: LoomEventView,
)
    requires
        concerns(event.fact, knot_id),
    ensures
        latest(events.push(event), knot_id) == Some(event),
        status_in(loom_id, knot_id, Ok(events.push(event))) == Ok::<
            KnotStatusView,
            PortErrorView,
        >(status_of(loom_id, knot_id, event.fact)),
{
    assert(events.push(event).last() == event);
}

/// Events of other knots, and events of other kinds, change no status.
pub proof fn other_events_change_nothing(
    loom_id: Seq<char>,
    knot_id: Seq<char>,
    events: Seq<LoomEventView>,
    event: LoomEventView,
)
    requires
        !concerns(event.fact, knot_id),
    ensures
        status_in(loom_id, knot_id, Ok(events.push(event))) == status_in(
            loom_id,
            knot_id,
            Ok(events),
        ),
        knot_state(loom_id, knot_id, Ok(events.push(event))) == knot_state(
            loom_id,
            knot_id,
            Ok(events),
        ),
{
    assert(events.push(event).drop_last() =~= events);
}

/// The snapshot and the status query agree wherever the query finds a status.
pub proof fn snapshot_agrees_with_status(
    loom_id: Seq<char>,
    knot_id: Seq<char>,
    read: Answer<Seq<LoomEventView>>,
)
    requires
        status_in(loom_id, knot_id, read) is Ok,
    ensures
        ({
            let status = status_in(loom_id, knot_id, read)->Ok_0;
            let state = knot_state(loom_id, knot_id, read);
            &&& state.status == status_name(status.status)
            &&& state.last_strand_path == status.last_strand_path
            &&& state.last_tie_off_path == status.last_tie_off_path
            &&& state.last_error == status.last_error
            &&& state.last_event_at is Some
        }),
{
}

/// The status of a knot is told by its own events alone. Behind any log, an
/// event that names another knot, or that is none of registering, processing,
/// completing and failing, changes neither the status nor the snapshot.
pub proof fn a_status_is_the_knots_own(
    loom_id: Seq<char>,
    knot_id: Seq<char>,
    events: Seq<LoomEventView>,
    event: LoomEventView,
)
    requires
        match event.fact {
            LoomFact::KnotRegistered { knot_id: named, .. } => named != knot_id,
            LoomFact::KnotProcessing { knot_id: named, .. } => named != knot_id,
            LoomFact::KnotCompleted { knot_id: named, .. } => named != knot_id,
            LoomFact::KnotFailed { knot_id: named, .. } => named != knot_id,
            _ => true,
        },
    ensures
        status_in(loom_id, knot_id, Ok(events.push(event))) == status_in(
            loom_id,
            knot_id,
            Ok(events),
        ),
        knot_state(loom_id, knot_id, Ok(events.push(event))) == knot_state(
            loom_id,
            knot_id,
            Ok(events),
        ),
{
    assert(events.push(event).drop_last() =~= events);
}

/// What a knot's own last event says is its status, field by field, whatever
/// was logged before: registered knots are idle, and each kind of processing
/// event gives its strand, with the tie-off of a completion and the error of a
/// failure. Nothing of earlier events is left.
pub proof fn a_status_tells_the_last_event(
    loom_id: Seq<char>,
    knot_id: Seq<char>,
    events: Seq<LoomEventView>,
    event: LoomEventView,
)
    requires
        match event.fact {
            LoomFact::KnotRegistered { knot_id: named, .. } => named == knot_id,
            LoomFact::KnotProcessing { knot_id: named, .. } => named == knot_id,
            LoomFact::KnotCompleted { knot_id: named, .. } => named == knot_id,
            LoomFact::KnotFailed { knot_id: named, .. } => named == knot_id,
            _ => false,
        },
    ensures
        ({
            let status = status_in(loom_id, knot_id, Ok(events.push(event)))->Ok_0;
            let state = knot_state(loom_id, knot_id, Ok(events.push(event)));
            &&& status_in(loom_id, knot_id, Ok(events.push(event))) is Ok
            &&& status.knot_id == knot_id
            &&& status.loom_id == loom_id
            &&& state.id == knot_id
            &&& state.last_event_at == Some(event.timestamp)
            &&& state.last_strand_path == status.last_strand_path
            &&& state.last_tie_off_path == status.last_tie_off_path
            &&& state.last_error == status.last_error
            &&& match event.fact {
                LoomFact::KnotRegistered { .. } => {
                    &&& status.status is Idle
                    &&& state.status == "idle"@
                    &&& status.last_strand_path is None
                    &&& status.last_tie_off_path is None
                    &&& status.last_error is None
                },
                LoomFact::KnotProcessing { strand_path, .. } => {
                    &&& status.status is Processing
                    &&& state.status == "processing"@
                    &&& status.last_strand_path == Some(strand_path)
                    &&& status.last_tie_off_path is None
                    &&& status.last_error is None
                },
                LoomFact::KnotCompleted { strand_path, tie_off_path, .. } => {
                    &&& status.status is Completed
                    &&& state.status == "completed"@
                    &&& status.last_strand_path == Some(strand_path)
                    &&& status.last_tie_off_path == Some(tie_off_path)
                    &&& status.last_error is None
                },
                LoomFact::KnotFailed { strand_path, error, .. } => {
                    &&& status.status is Failed
                    &&& state.status == "failed"@
                    &&& status.last_strand_path == Some(strand_path)
                    &&& status.last_tie_off_path is None
                    &&& status.last_error == Some(error)
                },
                _ => false,
            }
        }),
{
    assert(events.push(event).last() == event);
}

/// A knot without an event of its own has no status, and the error names the
/// knot and the loom; so does a log that cannot be read, by the loom. In the
/// snapshot such a knot is idle, with nothing else told of it.
pub proof fn an_untold_knot_is_idle(
    loom_id: Seq<char>,
    knot_id: Seq<char>,
    read: Answer<Seq<LoomEventView>>,
)
    requires
        read matches Ok(events) ==> forall|i: int|
            0 <= i < events.len() ==> match (#[trigger] events[i]).fact {
                LoomFact::KnotRegistered { knot_id: named, .. } => named != knot_id,
                LoomFact::KnotProcessing { knot_id: named, .. } => named != knot_id,
                LoomFact::KnotCompleted { knot_id: named, .. } => named != knot_id,
                LoomFact::KnotFailed { knot_id: named, .. } => named != knot_id,
                _ => true,
            },
    ensures
        match status_in(loom_id, knot_id, read) {
            Err(PortErrorView::KnotStatusDeriveFailed(message)) => message == (if read is Ok {
                "no events found for knot '"@ + knot_id + "' in loom '"@ + loom_id + "'"@
            } else {
                "failed to read loom-log for loom '"@ + loom_id + "'"@
            }),
            _ => false,
        },
        ({
            let state = knot_state(loom_id, knot_id, read);
            &&& state.id == knot_id
            &&& state.status == "idle"@
            &&& state.last_strand_path is None
            &&& state.last_tie_off_path is None
            &&& state.last_error is None
            &&& state.last_event_at is None
        }),
    decreases (if read is Ok {
        read->Ok_0.len()
    } else {
        0
    }),
{
    if read is Ok && read->Ok_0.len() > 0 {
        let events = read->Ok_0;
        assert forall|i: int| 0 <= i < events.len() - 1 implies events.drop_last()[i]
            == #[trigger] events[i] by {}
        an_untold_knot_is_idle(loom_id, knot_id, Ok(events.drop_last()));
        assert(events.drop_last().push(events.last()) =~= events);
        a_status_is_the_knots_own(loom_id, knot_id, events.drop_last(), events.last());
    }
}

/// The snapshot lists every loom under its name in order, and every knot of it
/// in order, each by the reading of its own loom's log; and every profile in
/// order with what it sets.
pub proof fn snapshots_list_everything(
    state: RigStateView,
    rig_dir: Seq<char>,
    looms: Seq<LoomView>,
    reads: Seq<Seq<Answer<Seq<LoomEventView>>>>,
    profiles: Seq<AgentProfileView>,
    i: int,
    k: int,
)
    requires
        snapshot_of(state, rig_dir, looms, reads, profiles),
    ensures
        state.rig_path == rig_dir,
        state.strand_queue.len() == 0,
        state.looms.len() == looms.len(),
        state.profiles.len() == profiles.len(),
        0 <= i < looms.len() ==> state.looms[i].id == looms[i].id && state.looms[i].knots.len()
            == looms[i].knots.len(),
        0 <= i < looms.len() && 0 <= k < looms[i].knots.len() ==> state.looms[i].knots[k].id
            == looms[i].knots[k].id && state.looms[i].knots[k] == knot_state(
            looms[i].id,
            looms[i].knots[k].id,
            reads[i][k],
        ),
        0 <= i < profiles.len() ==> ({
            let told = state.profiles[i];
            &&& told.name == profiles[i].name
            &&& told.provider == Some(profiles[i].provider)
            &&& told.model == Some(profiles[i].model)
            &&& told.timeout == profiles[i].timeout
            &&& told.model_ref is None
            &&& told.thinking_level is None
        }),
{
}

/// The log of a loom is read once for each of its knots, looms and knots in
/// order, and no other log is read.
pub proof fn logs_are_read_per_knot(
    looms: Seq<LoomView>,
    loom: LoomView,
    reads: Seq<Seq<Answer<Seq<LoomEventView>>>>,
    k: int,
)
    ensures
        ({
            let before = all_read_calls(looms, reads);
            let after = all_read_calls(looms.push(loom), reads);
            &&& all_read_calls(Seq::empty(), reads).len() == 0
            &&& after.len() == before.len() + loom.knots.len()
            &&& after.take(before.len() as int) == before
            &&& 0 <= k < loom.knots.len() ==> after[before.len() + k] == (LoomLogCall::ReadAll {
                loom_id: loom.id,
                answer: reads[looms.len() as int][k],
            })
        }),
{
    assert(looms.push(loom).drop_last() =~= looms);
    let before = all_read_calls(looms, reads);
    let after = all_read_calls(looms.push(loom), reads);
    assert(after.take(before.len() as int) =~= before);
}

} // verus!
