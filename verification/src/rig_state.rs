//! The rig state snapshot, and what changed between two snapshots.

use crate::text;
use crate::text::clone_opt;
use vstd::prelude::*;

verus! {

// ── Snapshot ───────────────────────────────────────────────────────────

/// A knot in the snapshot.
#[derive(Debug, PartialEq, Eq)]
pub struct RigStateKnot {
    /// The knot's name.
    pub id: String,
    /// `idle`, `processing`, `completed` or `failed`.
    pub status: String,
    /// The strand processed last, if any.
    pub last_strand_path: Option<String>,
    /// The tie-off written last, if any.
    pub last_tie_off_path: Option<String>,
    /// The error of the last failed run, if any.
    pub last_error: Option<String>,
    /// When the knot's latest event happened, if there was one.
    pub last_event_at: Option<String>,
}

/// Model of a [`RigStateKnot`].
pub struct RigStateKnotView {
    pub id: Seq<char>,
    pub status: Seq<char>,
    pub last_strand_path: Option<Seq<char>>,
    pub last_tie_off_path: Option<Seq<char>>,
    pub last_error: Option<Seq<char>>,
    pub last_event_at: Option<Seq<char>>,
}

impl View for RigStateKnot {
    type V = RigStateKnotView;

    open spec fn view(&self) -> RigStateKnotView {
        RigStateKnotView {
            id: self.id@,
            status: self.status@,
            last_strand_path: text::opt_text(self.last_strand_path),
            last_tie_off_path: text::opt_text(self.last_tie_off_path),
            last_error: text::opt_text(self.last_error),
            last_event_at: text::opt_text(self.last_event_at),
        }
    }
}

impl Clone for RigStateKnot {
    fn clone(&self) -> (copy: Self)
        ensures
            copy == *self,
    {
        RigStateKnot {
            id: self.id.clone(),
            status: self.status.clone(),
            last_strand_path: clone_opt(&self.last_strand_path),
            last_tie_off_path: clone_opt(&self.last_tie_off_path),
            last_error: clone_opt(&self.last_error),
            last_event_at: clone_opt(&self.last_event_at),
        }
    }
}

/// A loom in the snapshot.
#[derive(Debug, PartialEq, Eq)]
pub struct RigStateLoom {
    /// The loom's name.
    pub id: String,
    /// The loom's knots.
    pub knots: Vec<RigStateKnot>,
}

/// Model of a [`RigStateLoom`].
pub struct RigStateLoomView {
    pub id: Seq<char>,
    pub knots: Seq<RigStateKnotView>,
}

impl View for RigStateLoom {
    type V = RigStateLoomView;

    open spec fn view(&self) -> RigStateLoomView {
        RigStateLoomView {
            id: self.id@,
            knots: text::views(self.knots@),
        }
    }
}

impl Clone for RigStateLoom {
    fn clone(&self) -> (copy: Self)
        ensures
            copy@ == self@,
    {
        let knots = self.knots.clone();
        assert(text::views(knots@) =~= text::views(self.knots@));
        RigStateLoom {
            id: self.id.clone(),
            knots,
        }
    }
}

/// An agent profile in the snapshot.
#[derive(Debug, PartialEq, Eq)]
pub struct RigStateProfile {
    /// The profile's name.
    pub name: String,
    /// The model alias, when the profile uses one.
    pub model_ref: Option<String>,
    /// The model provider, when known.
    pub provider: Option<String>,
    /// The model, when known.
    pub model: Option<String>,
    /// How much the model thinks, when set.
    pub thinking_level: Option<String>,
    /// Session timeout in seconds, when set.
    pub timeout: Option<u64>,
}

/// Model of a [`RigStateProfile`].
pub struct RigStateProfileView {
    pub name: Seq<char>,
    pub model_ref: Option<Seq<char>>,
    pub provider: Option<Seq<char>>,
    pub model: Option<Seq<char>>,
    pub thinking_level: Option<Seq<char>>,
    pub timeout: Option<u64>,
}

impl View for RigStateProfile {
    type V = RigStateProfileView;

    open spec fn view(&self) -> RigStateProfileView {
        RigStateProfileView {
            name: self.name@,
            model_ref: text::opt_text(self.model_ref),
            provider: text::opt_text(self.provider),
            model: text::opt_text(self.model),
            thinking_level: text::opt_text(self.thinking_level),
            timeout: self.timeout,
        }
    }
}

impl Clone for RigStateProfile {
    fn clone(&self) -> (copy: Self)
        ensures
            copy == *self,
    {
        RigStateProfile {
            name: self.name.clone(),
            model_ref: clone_opt(&self.model_ref),
            provider: clone_opt(&self.provider),
            model: clone_opt(&self.model),
            thinking_level: clone_opt(&self.thinking_level),
            timeout: self.timeout,
        }
    }
}

/// A queued strand event in the snapshot.
#[derive(Debug, PartialEq, Eq)]
pub struct RigStateStrandQueueEntry {
    /// The strand.
    pub strand_path: String,
    /// The loom the event is for.
    pub loom_id: String,
    /// The knot the event is for.
    pub knot_id: String,
    /// The kind of strand event.
    pub event_kind: String,
    /// When the event was queued.
    pub queued_at: String,
}

/// Model of a [`RigStateStrandQueueEntry`].
pub struct RigStateStrandQueueEntryView {
    pub strand_path: Seq<char>,
    pub loom_id: Seq<char>,
    pub knot_id: Seq<char>,
    pub event_kind: Seq<char>,
    pub queued_at: Seq<char>,
}

impl View for RigStateStrandQueueEntry {
    type V = RigStateStrandQueueEntryView;

    open spec fn view(&self) -> RigStateStrandQueueEntryView {
        RigStateStrandQueueEntryView {
            strand_path: self.strand_path@,
            loom_id: self.loom_id@,
            knot_id: self.knot_id@,
            event_kind: self.event_kind@,
            queued_at: self.queued_at@,
        }
    }
}

impl Clone for RigStateStrandQueueEntry {
    fn clone(&self) -> (copy: Self)
        ensures
            copy == *self,
    {
        RigStateStrandQueueEntry {
            strand_path: self.strand_path.clone(),
            loom_id: self.loom_id.clone(),
            knot_id: self.knot_id.clone(),
            event_kind: self.event_kind.clone(),
            queued_at: self.queued_at.clone(),
        }
    }
}

/// The rig at one moment.
#[derive(Debug, PartialEq, Eq)]
pub struct RigState {
    /// The rig directory.
    pub rig_path: String,
    /// The registered looms.
    pub looms: Vec<RigStateLoom>,
    /// The agent profiles.
    pub profiles: Vec<RigStateProfile>,
    /// The queued strand events.
    pub strand_queue: Vec<RigStateStrandQueueEntry>,
    /// When the snapshot was taken.
    pub updated_at: String,
}

/// Model of a [`RigState`].
pub struct RigStateView {
    pub rig_path: Seq<char>,
    pub looms: Seq<RigStateLoomView>,
    pub profiles: Seq<RigStateProfileView>,
    pub strand_queue: Seq<RigStateStrandQueueEntryView>,
    pub updated_at: Seq<char>,
}

impl View for RigState {
    type V = RigStateView;

    open spec fn view(&self) -> RigStateView {
        RigStateView {
            rig_path: self.rig_path@,
            looms: text::views(self.looms@),
            profiles: text::views(self.profiles@),
            strand_queue: text::views(self.strand_queue@),
            updated_at: self.updated_at@,
        }
    }
}

impl Clone for RigState {
    fn clone(&self) -> (copy: Self)
        ensures
            copy@ == self@,
    {
        let looms = self.looms.clone();
        assert(text::views(looms@) =~= text::views(self.looms@));
        let profiles = self.profiles.clone();
        assert(text::views(profiles@) =~= text::views(self.profiles@));
        let strand_queue = self.strand_queue.clone();
        assert(text::views(strand_queue@) =~= text::views(self.strand_queue@));
        RigState {
            rig_path: self.rig_path.clone(),
            looms,
            profiles,
            strand_queue,
            updated_at: self.updated_at.clone(),
        }
    }
}

// ── Changes ────────────────────────────────────────────────────────────

/// A knot field that a snapshot records.
#[derive(Debug, Clone, Copy, PartialEq, Eq, Structural)]
pub enum KnotField {
    Status,
    LastStrandPath,
    LastTieOffPath,
    LastError,
    LastEventAt,
}

/// A profile field that a snapshot records.
#[derive(Debug, Clone, Copy, PartialEq, Eq, Structural)]
pub enum ProfileField {
    ModelRef,
    Provider,
    Model,
    ThinkingLevel,
    Timeout,
}

/// The fields of one knot that changed: each with its value before and after.
#[derive(Debug, PartialEq, Eq)]
pub struct KnotUpdate {
    /// The loom.
    pub loom: String,
    /// The knot.
    pub knot: String,
    /// The changed fields, in order.
    pub field_changes: Vec<(KnotField, Option<String>, Option<String>)>,
}

/// Model of a [`KnotUpdate`].
pub struct KnotUpdateView {
    pub loom: Seq<char>,
    pub knot: Seq<char>,
    pub field_changes: Seq<(KnotField, Option<Seq<char>>, Option<Seq<char>>)>,
}

impl View for KnotUpdate {
    type V = KnotUpdateView;

    open spec fn view(&self) -> KnotUpdateView {
        KnotUpdateView {
            loom: self.loom@,
            knot: self.knot@,
            field_changes: self.field_changes@.map_values(
                |x: (KnotField, Option<String>, Option<String>)|
                    (x.0, text::opt_text(x.1), text::opt_text(x.2)),
            ),
        }
    }
}

/// The fields of one profile that changed: each with its value before and after.
#[derive(Debug, PartialEq, Eq)]
pub struct ProfileUpdate {
    /// The profile.
    pub name: String,
    /// The changed fields, in order.
    pub field_changes: Vec<(ProfileField, Option<String>, Option<String>)>,
}

/// Model of a [`ProfileUpdate`].
pub struct ProfileUpdateView {
    pub name: Seq<char>,
    pub field_changes: Seq<(ProfileField, Option<Seq<char>>, Option<Seq<char>>)>,
}

impl View for ProfileUpdate {
    type V = ProfileUpdateView;

    open spec fn view(&self) -> ProfileUpdateView {
        ProfileUpdateView {
            name: self.name@,
            field_changes: self.field_changes@.map_values(
                |x: (ProfileField, Option<String>, Option<String>)|
                    (x.0, text::opt_text(x.1), text::opt_text(x.2)),
            ),
        }
    }
}

/// What changed from one snapshot to the next.
#[derive(Debug, PartialEq, Eq)]
pub struct StateChange {
    /// Looms that are new.
    pub looms_added: Vec<String>,
    /// Looms that are gone.
    pub looms_removed: Vec<String>,
    /// Knots that are new, as loom and knot.
    pub knots_added: Vec<(String, String)>,
    /// Knots that are gone, as loom and knot.
    pub knots_removed: Vec<(String, String)>,
    /// Knots with changed fields.
    pub knot_updates: Vec<KnotUpdate>,
    /// Profiles that are new.
    pub profiles_added: Vec<String>,
    /// Profiles that are gone.
    pub profiles_removed: Vec<String>,
    /// Profiles with changed fields.
    pub profile_updates: Vec<ProfileUpdate>,
    /// Strand events that joined the queue.
    pub queue_added: Vec<RigStateStrandQueueEntry>,
    /// Strand events that left the queue.
    pub queue_removed: Vec<RigStateStrandQueueEntry>,
}

/// Model of a [`StateChange`].
pub struct StateChangeView {
    pub looms_added: Seq<Seq<char>>,
    pub looms_removed: Seq<Seq<char>>,
    pub knots_added: Seq<(Seq<char>, Seq<char>)>,
    pub knots_removed: Seq<(Seq<char>, Seq<char>)>,
    pub knot_updates: Seq<KnotUpdateView>,
    pub profiles_added: Seq<Seq<char>>,
    pub profiles_removed: Seq<Seq<char>>,
    pub profile_updates: Seq<ProfileUpdateView>,
    pub queue_added: Seq<RigStateStrandQueueEntryView>,
    pub queue_removed: Seq<RigStateStrandQueueEntryView>,
}

impl View for StateChange {
    type V = StateChangeView;

    open spec fn view(&self) -> StateChangeView {
        StateChangeView {
            looms_added: text::texts(self.looms_added@),
            looms_removed: text::texts(self.looms_removed@),
            knots_added: self.knots_added@.map_values(|x: (String, String)| (x.0@, x.1@)),
            knots_removed: self.knots_removed@.map_values(|x: (String, String)| (x.0@, x.1@)),
            knot_updates: text::views(self.knot_updates@),
            profiles_added: text::texts(self.profiles_added@),
            profiles_removed: text::texts(self.profiles_removed@),
            profile_updates: text::views(self.profile_updates@),
            queue_added: text::views(self.queue_added@),
            queue_removed: text::views(self.queue_removed@),
        }
    }
}

impl StateChangeView {
    /// The change between two equal snapshots.
    pub open spec fn nothing() -> StateChangeView {
        StateChangeView {
            looms_added: Seq::empty(),
            looms_removed: Seq::empty(),
            knots_added: Seq::empty(),
            knots_removed: Seq::empty(),
            knot_updates: Seq::empty(),
            profiles_added: Seq::empty(),
            profiles_removed: Seq::empty(),
            profile_updates: Seq::empty(),
            queue_added: Seq::empty(),
            queue_removed: Seq::empty(),
        }
    }
}

impl Default for StateChange {
    /// No change.
    fn default() -> (change: Self)
        ensures
            change@ == StateChangeView::nothing(),
    {
        let change = StateChange {
            looms_added: Vec::new(),
            looms_removed: Vec::new(),
            knots_added: Vec::new(),
            knots_removed: Vec::new(),
            knot_updates: Vec::new(),
            profiles_added: Vec::new(),
            profiles_removed: Vec::new(),
            profile_updates: Vec::new(),
            queue_added: Vec::new(),
            queue_removed: Vec::new(),
        };
        assert(change@.looms_added =~= Seq::empty());
        assert(change@.looms_removed =~= Seq::empty());
        assert(change@.knots_added =~= Seq::empty());
        assert(change@.knots_removed =~= Seq::empty());
        assert(change@.knot_updates =~= Seq::empty());
        assert(change@.profiles_added =~= Seq::empty());
        assert(change@.profiles_removed =~= Seq::empty());
        assert(change@.profile_updates =~= Seq::empty());
        assert(change@.queue_added =~= Seq::empty());
        assert(change@.queue_removed =~= Seq::empty());
        change
    }
}

} // verus!
