//! Use cases on single knots: manage them by request, and follow the
//! configuration files.

use crate::clock::format_timestamp;
use crate::entities::{Knot, KnotId, KnotView, Loom, LoomId, LoomView};
use crate::errors::{PortError, PortErrorView};
use crate::events::{ConfigEvent, ConfigEventView, LoomEvent};
use crate::paths;
use crate::paths::{join_path, parent_of, same_path};
use crate::outside;
use crate::outside::Outside;
use crate::ports;
use crate::ports::{
    Answer, EventSource, LoomLogCall, LoomLogPort, LoomRepository, RepositoryCall, SourceCall,
    WatchType, WatchTypeView,
};
use crate::store::LoomStore;
use crate::text;
use crate::trace::{Act, Trace};
use crate::usecases::looms;
use crate::usecases::looms::unwatch_failed;
use crate::usecases::registration;
use crate::usecases::registration::{
    ensure_strand_dir_and_watch, register_loom, RegisterIo, Steps, StrandDir, WatchFailure,
    WatchIo,
};
use vstd::prelude::*;
use vstd::string::*;

verus! {

// ── Managing knots ─────────────────────────────────────────────────────

/// Action to perform on a knot within a loom.
#[derive(Debug)]
pub enum KnotAction {
    /// Add a new knot to the loom.
    Create { loom_id: LoomId, knot: Knot },
    /// Update an existing knot's configuration.
    Update { loom_id: LoomId, knot: Knot },
    /// Remove a knot from the loom.
    Delete { loom_id: LoomId, knot_id: KnotId },
}

/// Model of a [`KnotAction`].
pub enum KnotActionView {
    Create { loom_id: Seq<char>, knot: KnotView },
    Update { loom_id: Seq<char>, knot: KnotView },
    Delete { loom_id: Seq<char>, knot_id: Seq<char> },
}

impl View for KnotAction {
    type V = KnotActionView;

    open spec fn view(&self) -> KnotActionView {
        match self {
            KnotAction::Create { loom_id, knot } => KnotActionView::Create {
                loom_id: loom_id@,
                knot: knot@,
            },
            KnotAction::Update { loom_id, knot } => KnotActionView::Update {
                loom_id: loom_id@,
                knot: knot@,
            },
            KnotAction::Delete { loom_id, knot_id } => KnotActionView::Delete {
                loom_id: loom_id@,
                knot_id: knot_id@,
            },
        }
    }
}

impl Clone for KnotAction {
    fn clone(&self) -> (copy: Self)
        ensures
            copy == *self,
    {
        match self {
            KnotAction::Create { loom_id, knot } => KnotAction::Create {
                loom_id: loom_id.clone(),
                knot: knot.clone(),
            },
            KnotAction::Update { loom_id, knot } => KnotAction::Update {
                loom_id: loom_id.clone(),
                knot: knot.clone(),
            },
            KnotAction::Delete { loom_id, knot_id } => KnotAction::Delete {
                loom_id: loom_id.clone(),
                knot_id: knot_id.clone(),
            },
        }
    }
}

/// A loom with one knot more.
pub open spec fn with_knot(loom: LoomView, knot: KnotView) -> LoomView {
    LoomView { knots: loom.knots.push(knot), ..loom }
}

/// A loom with the knot at a position replaced.
pub open spec fn with_knot_at(loom: LoomView, i: int, knot: KnotView) -> LoomView {
    LoomView { knots: loom.knots.update(i, knot), ..loom }
}

/// A loom without the knot at a position.
pub open spec fn without_knot_at(loom: LoomView, i: int) -> LoomView {
    LoomView { knots: loom.knots.remove(i), ..loom }
}

/// The error for a knot that a loom does not hold.
pub open spec fn knot_missing(loom_id: Seq<char>, knot_id: Seq<char>) -> PortErrorView {
    PortErrorView::LoomSaveFailed(
        "knot '"@ + knot_id + "' not found in loom '"@ + loom_id + "'"@,
    )
}

/// The error for a knot that a loom holds already.
pub open spec fn knot_exists(loom_id: Seq<char>, knot_id: Seq<char>) -> PortErrorView {
    PortErrorView::LoomSaveFailed(
        "knot '"@ + knot_id + "' already exists in loom '"@ + loom_id + "'"@,
    )
}

fn about_knot(loom_id: &LoomId, knot_id: &KnotId, what: &str) -> (error: PortError)
    ensures
        error@ == PortErrorView::LoomSaveFailed("knot '"@ + knot_id@ + what@ + loom_id@ + "'"@),
{
    let mut message = "knot '".to_string();
    message.append(knot_id.0.as_str());
    message.append(what);
    message.append(loom_id.0.as_str());
    message.append("'");
    PortError::LoomSaveFailed(message)
}

/// The store behind an action, and the action's result. An action that fails
/// leaves the store alone.
pub open spec fn managed(store: Map<Seq<char>, LoomView>, action: KnotActionView) -> (
    Map<Seq<char>, LoomView>,
    Answer<()>,
) {
    match action {
        KnotActionView::Create { loom_id, knot } => if !store.contains_key(loom_id) {
            (store, Err(PortErrorView::LoomNotFound(loom_id)))
        } else if store[loom_id].position(knot.id) is Some {
            (store, Err(knot_exists(loom_id, knot.id)))
        } else {
            (store.insert(loom_id, with_knot(store[loom_id], knot)), Ok(()))
        },
        KnotActionView::Update { loom_id, knot } => if !store.contains_key(loom_id) {
            (store, Err(PortErrorView::LoomNotFound(loom_id)))
        } else {
            match store[loom_id].position(knot.id) {
                Some(i) => (
                    store.insert(loom_id, with_knot_at(store[loom_id], i, knot)),
                    Ok(()),
                ),
                None => (store, Err(knot_missing(loom_id, knot.id))),
            }
        },
        KnotActionView::Delete { loom_id, knot_id } => if !store.contains_key(loom_id) {
            (store, Err(PortErrorView::LoomNotFound(loom_id)))
        } else {
            match store[loom_id].position(knot_id) {
                Some(i) => (
                    store.insert(loom_id, without_knot_at(store[loom_id], i)),
                    Ok(()),
                ),
                None => (store, Err(knot_missing(loom_id, knot_id))),
            }
        },
    }
}

/// Add a knot to a loom.
fn push_knot(loom: Loom, knot: Knot) -> (longer: Loom)
    ensures
        longer@ == with_knot(loom@, knot@),
{
    let mut longer = loom;
    let ghost before = longer@.knots;
    longer.knots.push(knot);
    assert(longer@.knots =~= before.push(knot@));
    longer
}

/// Replace a knot of a loom.
fn set_knot(loom: Loom, i: usize, knot: Knot) -> (changed: Loom)
    requires
        i < loom.knots@.len(),
    ensures
        changed@ == with_knot_at(loom@, i as int, knot@),
{
    let mut changed = loom;
    let ghost before = changed@.knots;
    changed.knots.set(i, knot);
    assert(changed@.knots =~= before.update(i as int, knot@));
    changed
}

/// Remove a knot of a loom.
fn remove_knot(loom: Loom, i: usize) -> (shorter: Loom)
    requires
        i < loom.knots@.len(),
    ensures
        shorter@ == without_knot_at(loom@, i as int),
{
    let mut shorter = loom;
    let ghost before = shorter@.knots;
    shorter.knots.remove(i);
    assert(shorter@.knots =~= before.remove(i as int));
    shorter
}

/// Use case: manage individual knots within a loom.
///
/// Updates the store only: files and watchers are the caller's business.
pub struct ManageKnot {
    pub store: LoomStore,
}

impl ManageKnot {
    /// Create a new `ManageKnot` use case.
    pub fn new(store: LoomStore) -> (use_case: Self)
        ensures
            use_case.store == store,
    {
        ManageKnot { store }
    }

    /// Execute the knot management action.
    pub fn execute(&mut self, action: KnotAction) -> (result: Result<(), PortError>)
        ensures
            final(self).store@ == managed(old(self).store@, action@).0,
            ports::done(result) == managed(old(self).store@, action@).1,
    {
        match action {
            KnotAction::Create { loom_id, knot } => self.create_knot(&loom_id, knot),
            KnotAction::Update { loom_id, knot } => self.update_knot(&loom_id, knot),
            KnotAction::Delete { loom_id, knot_id } => self.delete_knot(&loom_id, &knot_id),
        }
    }

    fn create_knot(&mut self, loom_id: &LoomId, knot: Knot) -> (result: Result<(), PortError>)
        ensures
            ({
                let action = KnotActionView::Create { loom_id: loom_id@, knot: knot@ };
                &&& final(self).store@ == managed(old(self).store@, action).0
                &&& ports::done(result) == managed(old(self).store@, action).1
            }),
    {
        let loom = match self.store.get(loom_id) {
            Some(loom) => loom,
            None => {
                return Err(PortError::LoomNotFound(loom_id.clone()));
            },
        };
        if loom.position(&knot.id).is_some() {
            return Err(about_knot(loom_id, &knot.id, "' already exists in loom '"));
        }
        self.store.register(push_knot(loom, knot));
        Ok(())
    }

    fn update_knot(&mut self, loom_id: &LoomId, knot: Knot) -> (result: Result<(), PortError>)
        ensures
            ({
                let action = KnotActionView::Update { loom_id: loom_id@, knot: knot@ };
                &&& final(self).store@ == managed(old(self).store@, action).0
                &&& ports::done(result) == managed(old(self).store@, action).1
            }),
    {
        let loom = match self.store.get(loom_id) {
            Some(loom) => loom,
            None => {
                return Err(PortError::LoomNotFound(loom_id.clone()));
            },
        };
        match loom.position(&knot.id) {
            Some(i) => {
                self.store.register(set_knot(loom, i, knot));
                Ok(())
            },
            None => Err(about_knot(loom_id, &knot.id, "' not found in loom '")),
        }
    }

    fn delete_knot(&mut self, loom_id: &LoomId, knot_id: &KnotId) -> (result: Result<
        (),
        PortError,
    >)
        ensures
            ({
                let action = KnotActionView::Delete { loom_id: loom_id@, knot_id: knot_id@ };
                &&& final(self).store@ == managed(old(self).store@, action).0
                &&& ports::done(result) == managed(old(self).store@, action).1
            }),
    {
        let loom = match self.store.get(loom_id) {
            Some(loom) => loom,
            None => {
                return Err(PortError::LoomNotFound(loom_id.clone()));
            },
        };
        match loom.position(knot_id) {
            Some(i) => {
                self.store.register(remove_knot(loom, i));
                Ok(())
            },
            None => Err(about_knot(loom_id, knot_id, "' not found in loom '")),
        }
    }
}

// ── Configuration events ───────────────────────────────────────────────

/// What the outside answers around a configuration event.
pub struct ConfigIo {
    pub scan: Answer<(Seq<KnotView>, Seq<Seq<char>>)>,
    pub register: RegisterIo,
    pub unwatched: Answer<()>,
    pub logged: Answer<()>,
    pub watch: WatchIo,
}

/// What a configuration event does: the calls on the repository, the steps on
/// the other ports, and the store behind it.
pub struct Configured {
    pub repository: Seq<RepositoryCall>,
    pub steps: Steps,
    pub store: Map<Seq<char>, LoomView>,
}

/// Nothing but a result.
pub open spec fn only(store: Map<Seq<char>, LoomView>, result: Answer<()>) -> Configured {
    Configured {
        repository: Seq::empty(),
        steps: Steps { result, ..Steps::nothing() },
        store,
    }
}

/// A knot whose relative strand directory is taken below the project root.
pub open spec fn resolved(root: Seq<char>, knot: KnotView) -> KnotView {
    KnotView { strand_dir: paths::join(root, knot.strand_dir), ..knot }
}

/// Knots whose relative strand directories are taken below the project root.
pub open spec fn all_resolved(root: Seq<char>, knots: Seq<KnotView>) -> Seq<KnotView> {
    knots.map_values(|knot: KnotView| resolved(root, knot))
}

/// Stop to watch a directory for a knot's strands.
pub open spec fn stop_strand_watch(
    loom_id: Seq<char>,
    knot_id: Seq<char>,
    path: Seq<char>,
    answer: Answer<()>,
) -> Steps {
    let call = SourceCall::UnwatchWithType {
        path,
        watch_type: WatchTypeView::Strand(loom_id, knot_id),
        answer,
    };
    Steps {
        source: seq![call],
        acts: seq![Act::Source(call)],
        result: match answer {
            Ok(_) => Ok(()),
            Err(e) => Err(looms::unwatch_error(path, e)),
        },
        ..Steps::nothing()
    }
}

/// Log a knot's registration, and watch its strand directory.
pub open spec fn knot_joins(loom_id: Seq<char>, knot: KnotView, io: ConfigIo) -> Steps {
    registration::log_fact(
        registration::registered_fact(loom_id, knot.id),
        io.logged,
    ).follow(
        registration::ensure_and_watch(
            WatchFailure::Watch,
            loom_id,
            knot.id,
            knot.strand_dir,
            io.watch,
        ),
    )
}

/// A loom directory appeared: its knots are scanned and the loom is
/// registered, unless it is registered already.
pub open spec fn loom_added(
    store: Map<Seq<char>, LoomView>,
    root: Seq<char>,
    loom_id: Seq<char>,
    loom_dir: Seq<char>,
    io: ConfigIo,
) -> Configured {
    if store.contains_key(loom_id) {
        only(store, Ok(()))
    } else {
        let scan = RepositoryCall::ScanKnotFiles { loom_dir, answer: io.scan };
        match io.scan {
            Err(e) => Configured { repository: seq![scan], ..only(store, Err(e)) },
            Ok(scanned) => {
                let loom = LoomView { id: loom_id, knots: all_resolved(root, scanned.0) };
                Configured {
                    repository: seq![scan],
                    steps: registration::register_steps(
                        WatchFailure::Watch,
                        loom,
                        scanned.1,
                        io.register,
                    ),
                    store: registration::register_store(store, loom, scanned.1, io.register),
                }
            },
        }
    }
}

/// A knot file appeared: the knot joins its loom, unless it is there already.
pub open spec fn knot_added(
    store: Map<Seq<char>, LoomView>,
    loom_id: Seq<char>,
    knot: KnotView,
    io: ConfigIo,
) -> Configured {
    if !store.contains_key(loom_id) {
        only(store, Err(PortErrorView::LoomNotFound(loom_id)))
    } else if store[loom_id].position(knot.id) is Some {
        only(store, Ok(()))
    } else {
        Configured {
            steps: knot_joins(loom_id, knot, io),
            ..only(store.insert(loom_id, with_knot(store[loom_id], knot)), Ok(()))
        }
    }
}

/// A knot file changed: the knot is replaced, and where its strand directory
/// is another one the watch moves. A knot that is not there joins its loom.
pub open spec fn knot_modified(
    store: Map<Seq<char>, LoomView>,
    loom_id: Seq<char>,
    knot: KnotView,
    io: ConfigIo,
) -> Configured {
    if !store.contains_key(loom_id) {
        only(store, Err(PortErrorView::LoomNotFound(loom_id)))
    } else {
        let loom = store[loom_id];
        match loom.position(knot.id) {
            None => knot_added(store, loom_id, knot, io),
            Some(i) => {
                let before = loom.knots[i].strand_dir;
                let after = store.insert(loom_id, with_knot_at(loom, i, knot));
                if paths::path_key(before) == paths::path_key(knot.strand_dir) {
                    only(after, Ok(()))
                } else {
                    Configured {
                        steps: stop_strand_watch(loom_id, knot.id, before, io.unwatched).follow(
                            registration::ensure_and_watch(
                                WatchFailure::Watch,
                                loom_id,
                                knot.id,
                                knot.strand_dir,
                                io.watch,
                            ),
                        ),
                        ..only(after, Ok(()))
                    }
                }
            },
        }
    }
}

/// A knot file is gone: the knot leaves its loom, its strand directory is no
/// longer watched for it, and that is logged.
pub open spec fn knot_deleted(
    store: Map<Seq<char>, LoomView>,
    loom_id: Seq<char>,
    knot_id: Seq<char>,
    io: ConfigIo,
) -> Configured {
    if !store.contains_key(loom_id) {
        only(store, Err(PortErrorView::LoomNotFound(loom_id)))
    } else {
        let loom = store[loom_id];
        match loom.position(knot_id) {
            None => only(store, Err(knot_missing(loom_id, knot_id))),
            Some(i) => Configured {
                steps: stop_strand_watch(
                    loom_id,
                    knot_id,
                    loom.knots[i].strand_dir,
                    io.unwatched,
                ).follow(
                    registration::log_fact(
                        crate::events::LoomFact::KnotDeregistered { loom_id, knot_id },
                        io.logged,
                    ),
                ),
                ..only(store.insert(loom_id, without_knot_at(loom, i)), Ok(()))
            },
        }
    }
}

/// What a configuration event does.
pub open spec fn configured(
    store: Map<Seq<char>, LoomView>,
    root: Seq<char>,
    event: ConfigEventView,
    io: ConfigIo,
) -> Configured {
    match event {
        ConfigEventView::LoomAdded { loom_id, loom_dir } => loom_added(
            store,
            root,
            loom_id,
            loom_dir,
            io,
        ),
        ConfigEventView::KnotAdded { loom_id, knot } => knot_added(store, loom_id, knot, io),
        ConfigEventView::KnotModified { loom_id, knot } => knot_modified(
            store,
            loom_id,
            knot,
            io,
        ),
        ConfigEventView::KnotDeleted { loom_id, knot_id } => knot_deleted(
            store,
            loom_id,
            knot_id,
            io,
        ),
    }
}

/// Use case: handle configuration events for looms and knots.
pub struct ConfigEventHandler<
    R: LoomRepository,
    L: LoomLogPort,
    E: EventSource,
    D: Fn(&String) -> StrandDir,
> {
    pub repository: R,
    pub log_port: L,
    pub store: LoomStore,
    pub event_source: E,
    /// Relative strand directories are below it.
    pub project_root: String,
    pub ensure_dir: Outside<String, StrandDir, D>,
    /// The calls on the ports behind the repository, in one order.
    pub trace: Trace,
}

/// The handler has done this, and ended with this result.
pub open spec fn carried_out<
    R: LoomRepository,
    L: LoomLogPort,
    E: EventSource,
    D: Fn(&String) -> StrandDir,
>(
    before: ConfigEventHandler<R, L, E, D>,
    after: ConfigEventHandler<R, L, E, D>,
    c: Configured,
    result: Answer<()>,
) -> bool {
    &&& after.repository.calls() == before.repository.calls() + c.repository
    &&& after.log_port.calls() == before.log_port.calls() + c.steps.log
    &&& after.event_source.calls() == before.event_source.calls() + c.steps.source
    &&& outside::asked(before.ensure_dir, after.ensure_dir, c.steps.dirs)
    &&& after.trace.acts() == before.trace.acts() + c.steps.acts
    &&& after.store@ == c.store
    &&& after.project_root == before.project_root
    &&& result == c.steps.result
}

/// The project root of a rig: the directory above the rig, or the rig itself.
pub open spec fn root_of(rig_path: Seq<char>) -> Seq<char> {
    match paths::parent(rig_path) {
        Some(above) => above,
        None => rig_path,
    }
}

impl<
    R: LoomRepository,
    L: LoomLogPort,
    E: EventSource,
    D: Fn(&String) -> StrandDir,
> ConfigEventHandler<R, L, E, D> {
    /// Create a new `ConfigEventHandler`.
    pub fn new(
        repository: R,
        log_port: L,
        store: LoomStore,
        event_source: E,
        rig_path: String,
        ensure_dir: D,
    ) -> (handler: Self)
        ensures
            handler.repository == repository,
            handler.log_port == log_port,
            handler.store == store,
            handler.event_source == event_source,
            handler.project_root@ == root_of(rig_path@),
            handler.ensure_dir.source() == ensure_dir,
            handler.ensure_dir.calls() == Seq::<(Seq<char>, StrandDir)>::empty(),
            handler.trace.acts() == Seq::<Act>::empty(),
    {
        let project_root = match parent_of(rig_path.as_str()) {
            Some(above) => above,
            None => rig_path,
        };
        ConfigEventHandler {
            repository,
            log_port,
            store,
            event_source,
            project_root,
            ensure_dir: Outside::new(ensure_dir),
            trace: Trace::new(),
        }
    }

    /// Handle a single configuration event.
    pub fn execute(&mut self, event: ConfigEvent) -> (result: Result<(), PortError>)
        requires
            old(self).ensure_dir.ready(),
        ensures
            exists|io: ConfigIo|
                carried_out(
                    *old(self),
                    *final(self),
                    #[trigger] configured(
                        old(self).store@,
                        old(self).project_root@,
                        event@,
                        io,
                    ),
                    ports::done(result),
                ),
    {
        let ghost store = self.store@;
        let ghost root = self.project_root@;
        let ghost view = event@;
        let (result, Ghost(io)) = match event {
            ConfigEvent::LoomAdded { loom_id, loom_dir } => self.handle_loom_added(
                &loom_id,
                loom_dir.as_str(),
            ),
            ConfigEvent::KnotAdded { loom_id, knot } => self.handle_knot_added(&loom_id, knot),
            ConfigEvent::KnotModified { loom_id, knot } => self.handle_knot_modified(
                &loom_id,
                knot,
            ),
            ConfigEvent::KnotDeleted { loom_id, knot_id } => self.handle_knot_deleted(
                &loom_id,
                &knot_id,
            ),
        };
        let ghost c = configured(store, root, view, io);
        assert(carried_out(*old(self), *self, c, ports::done(result)));
        result
    }

    /// Answers where nothing is asked.
    pub open spec fn no_io() -> ConfigIo {
        ConfigIo {
            scan: Ok((Seq::empty(), Seq::empty())),
            register: RegisterIo {
                opened: Ok(()),
                answers: Seq::empty(),
                watches: Seq::empty(),
            },
            unwatched: Ok(()),
            logged: Ok(()),
            watch: WatchIo { dir: StrandDir::Existing, logged: Ok(()), watched: Ok(()) },
        }
    }

    proof fn nothing_done(self)
        ensures
            self.repository.calls() + Seq::<RepositoryCall>::empty() == self.repository.calls(),
            self.log_port.calls() + Seq::<LoomLogCall>::empty() == self.log_port.calls(),
            self.event_source.calls() + Seq::<SourceCall>::empty() == self.event_source.calls(),
            outside::asked(self.ensure_dir, self.ensure_dir, Seq::empty()),
            self.trace.acts() + Seq::<Act>::empty() == self.trace.acts(),
    {
        assert(self.trace.acts() + Seq::<Act>::empty() =~= self.trace.acts());
        outside::nothing_asked(self.ensure_dir);
        assert(self.repository.calls() + Seq::<RepositoryCall>::empty()
            =~= self.repository.calls());
        assert(self.log_port.calls() + Seq::<LoomLogCall>::empty() =~= self.log_port.calls());
        assert(self.event_source.calls() + Seq::<SourceCall>::empty()
            =~= self.event_source.calls());
    }

    /// Scan the new loom's directory, and register the loom.
    fn handle_loom_added(&mut self, loom_id: &LoomId, loom_dir: &str) -> (r: (
        Result<(), PortError>,
        Ghost<ConfigIo>,
    ))
        requires
            old(self).ensure_dir.ready(),
        ensures
            carried_out(
                *old(self),
                *final(self),
                loom_added(
                    old(self).store@,
                    old(self).project_root@,
                    loom_id@,
                    loom_dir@,
                    r.1@,
                ),
                ports::done(r.0),
            ),
    {
        proof {
            self.nothing_done();
        }
        if self.store.get(loom_id).is_some() {
            return (Ok(()), Ghost(Self::no_io()));
        }
        let scanned = self.repository.scan_knot_files(loom_dir);
        let ghost scan = ports::answered_scan(scanned);
        let ghost call = RepositoryCall::ScanKnotFiles { loom_dir: loom_dir@, answer: scan };
        assert(self.repository.calls() =~= old(self).repository.calls() + seq![call]);
        let (knots, warnings) = match scanned {
            Ok(found) => found,
            Err(e) => {
                return (Err(e), Ghost(ConfigIo { scan, ..Self::no_io() }));
            },
        };
        let ghost root = self.project_root@;
        let ghost all = text::views(knots@);
        let mut placed: Vec<Knot> = Vec::new();
        for i in 0..knots.len()
            invariant
                all == text::views(knots@),
                root == self.project_root@,
                text::views(placed@) =~= all_resolved(root, all).take(i as int),
        {
            broadcast use text::views_push;

            let mut knot = knots[i].clone();
            knot.strand_dir = join_path(self.project_root.as_str(), knot.strand_dir.as_str());
            assert(all[i as int] == knots@[i as int]@);
            assert(knot@ == all_resolved(root, all)[i as int]);
            placed.push(knot);
        }
        assert(all_resolved(root, all).take(knots@.len() as int) =~= all_resolved(root, all));
        let loom = Loom { id: loom_id.clone(), knots: placed };
        let (result, Ghost(register)) = register_loom(
            &mut self.log_port,
            &mut self.store,
            &mut self.event_source,
            &mut self.ensure_dir,
            &mut self.trace,
            WatchFailure::Watch,
            &loom,
            &warnings,
        );
        (result, Ghost(ConfigIo { scan, register, ..Self::no_io() }))
    }

    /// Log a knot's registration, and watch its strand directory.
    fn join_knot(&mut self, loom_id: &LoomId, knot_id: &KnotId, strand_dir: &String) -> (r: (
        Result<(), PortError>,
        Ghost<ConfigIo>,
    ))
        requires
            old(self).ensure_dir.ready(),
        ensures
            forall|knot: KnotView|
                knot.id == knot_id@ && knot.strand_dir == strand_dir@ ==> {
                    let steps = #[trigger] knot_joins(loom_id@, knot, r.1@);
                    carried_out(
                        *old(self),
                        *final(self),
                        Configured { steps, ..only(old(self).store@, Ok(())) },
                        ports::done(r.0),
                    )
                },
    {
        proof {
            self.nothing_done();
        }
        let ghost log = self.log_port.calls();
        let ghost acts = self.trace.acts();
        let logged = self.trace.tell(
            &mut self.log_port,
            LoomEvent::KnotRegistered {
                loom_id: loom_id.clone(),
                knot_id: knot_id.clone(),
                timestamp: format_timestamp(),
            },
        );
        let ghost given = ports::done(logged);
        let ghost first = registration::log_fact(
            registration::registered_fact(loom_id@, knot_id@),
            given,
        );
        assert(self.log_port.calls() =~= log + first.log);
        assert(self.trace.acts() =~= acts + first.acts);
        if let Err(e) = logged {
            return (Err(e), Ghost(ConfigIo { logged: given, ..Self::no_io() }));
        }
        let (watched, Ghost(watch)) = ensure_strand_dir_and_watch(
            &mut self.log_port,
            &mut self.event_source,
            &mut self.ensure_dir,
            &mut self.trace,
            WatchFailure::Watch,
            loom_id,
            knot_id,
            strand_dir,
        );
        proof {
            let next = registration::ensure_and_watch(
                WatchFailure::Watch,
                loom_id@,
                knot_id@,
                strand_dir@,
                watch,
            );
            assert(log + (first.log + next.log) =~= (log + first.log) + next.log);
            assert(first.source + next.source =~= next.source);
            assert(first.dirs + next.dirs =~= next.dirs);
            assert(acts + (first.acts + next.acts) =~= (acts + first.acts) + next.acts);
        }
        (watched, Ghost(ConfigIo { logged: given, watch, ..Self::no_io() }))
    }

    /// Add the knot to its loom, log that, and watch its strand directory.
    fn handle_knot_added(&mut self, loom_id: &LoomId, knot: Knot) -> (r: (
        Result<(), PortError>,
        Ghost<ConfigIo>,
    ))
        requires
            old(self).ensure_dir.ready(),
        ensures
            carried_out(
                *old(self),
                *final(self),
                knot_added(old(self).store@, loom_id@, knot@, r.1@),
                ports::done(r.0),
            ),
    {
        proof {
            self.nothing_done();
        }
        let loom = match self.store.get(loom_id) {
            Some(loom) => loom,
            None => {
                return (Err(PortError::LoomNotFound(loom_id.clone())), Ghost(Self::no_io()));
            },
        };
        if loom.position(&knot.id).is_some() {
            return (Ok(()), Ghost(Self::no_io()));
        }
        let knot_id = knot.id.clone();
        let strand_dir = knot.strand_dir.clone();
        let ghost view = knot@;
        self.store.register(push_knot(loom, knot));
        let (result, Ghost(io)) = self.join_knot(loom_id, &knot_id, &strand_dir);
        let ghost steps = knot_joins(loom_id@, view, io);
        (result, Ghost(io))
    }

    /// Stop to watch a directory for a knot's strands.
    fn stop_watch(&mut self, loom_id: &LoomId, knot_id: &KnotId, strand_dir: &String) -> (r: (
        Result<(), PortError>,
        Ghost<Answer<()>>,
    ))
        ensures
            carried_out(
                *old(self),
                *final(self),
                Configured {
                    steps: stop_strand_watch(loom_id@, knot_id@, strand_dir@, r.1@),
                    ..only(old(self).store@, Ok(()))
                },
                ports::done(r.0),
            ),
    {
        proof {
            self.nothing_done();
        }
        let answer = self.trace.unwatch_with_type(
            &mut self.event_source,
            strand_dir.as_str(),
            WatchType::Strand(loom_id.clone(), knot_id.clone()),
        );
        let ghost given = ports::done(answer);
        let ghost steps = stop_strand_watch(loom_id@, knot_id@, strand_dir@, given);
        assert(self.event_source.calls() =~= old(self).event_source.calls() + steps.source);
        assert(self.trace.acts() =~= old(self).trace.acts() + steps.acts);
        match answer {
            Ok(_) => (Ok(()), Ghost(given)),
            Err(e) => (Err(unwatch_failed(strand_dir.as_str(), &e)), Ghost(given)),
        }
    }

    /// Replace the knot, and move its watch where the directory is another
    /// one. A knot that is not there is added.
    fn handle_knot_modified(&mut self, loom_id: &LoomId, knot: Knot) -> (r: (
        Result<(), PortError>,
        Ghost<ConfigIo>,
    ))
        requires
            old(self).ensure_dir.ready(),
        ensures
            carried_out(
                *old(self),
                *final(self),
                knot_modified(old(self).store@, loom_id@, knot@, r.1@),
                ports::done(r.0),
            ),
    {
        proof {
            self.nothing_done();
        }
        let loom = match self.store.get(loom_id) {
            Some(loom) => loom,
            None => {
                return (Err(PortError::LoomNotFound(loom_id.clone())), Ghost(Self::no_io()));
            },
        };
        let i = match loom.position(&knot.id) {
            Some(i) => i,
            None => {
                return self.handle_knot_added(loom_id, knot);
            },
        };
        let old_dir = loom.knots[i].strand_dir.clone();
        assert(loom@.knots[i as int] == loom.knots@[i as int]@);
        let new_dir = knot.strand_dir.clone();
        let knot_id = knot.id.clone();
        self.store.register(set_knot(loom, i, knot));
        if same_path(old_dir.as_str(), new_dir.as_str()) {
            return (Ok(()), Ghost(Self::no_io()));
        }
        let (stopped, Ghost(unwatched)) = self.stop_watch(loom_id, &knot_id, &old_dir);
        let ghost first = stop_strand_watch(loom_id@, knot_id@, old_dir@, unwatched);
        if let Err(e) = stopped {
            return (Err(e), Ghost(ConfigIo { unwatched, ..Self::no_io() }));
        }
        let ghost source = old(self).event_source.calls();
        let (watched, Ghost(watch)) = ensure_strand_dir_and_watch(
            &mut self.log_port,
            &mut self.event_source,
            &mut self.ensure_dir,
            &mut self.trace,
            WatchFailure::Watch,
            loom_id,
            &knot_id,
            &new_dir,
        );
        proof {
            let next = registration::ensure_and_watch(
                WatchFailure::Watch,
                loom_id@,
                knot_id@,
                new_dir@,
                watch,
            );
            assert(source + (first.source + next.source) =~= (source + first.source)
                + next.source);
            assert(first.log + next.log =~= next.log);
            assert(first.dirs + next.dirs =~= next.dirs);
            let acts = old(self).trace.acts();
            assert(acts + (first.acts + next.acts) =~= (acts + first.acts) + next.acts);
        }
        (watched, Ghost(ConfigIo { unwatched, watch, ..Self::no_io() }))
    }

    /// Remove the knot from its loom, stop its watch, and log that.
    fn handle_knot_deleted(&mut self, loom_id: &LoomId, knot_id: &KnotId) -> (r: (
        Result<(), PortError>,
        Ghost<ConfigIo>,
    ))
        ensures
            carried_out(
                *old(self),
                *final(self),
                knot_deleted(old(self).store@, loom_id@, knot_id@, r.1@),
                ports::done(r.0),
            ),
    {
        proof {
            self.nothing_done();
        }
        let loom = match self.store.get(loom_id) {
            Some(loom) => loom,
            None => {
                return (Err(PortError::LoomNotFound(loom_id.clone())), Ghost(Self::no_io()));
            },
        };
        let i = match loom.position(knot_id) {
            Some(i) => i,
            None => {
                return (
                    Err(about_knot(loom_id, knot_id, "' not found in loom '")),
                    Ghost(Self::no_io()),
                );
            },
        };
        let strand_dir = loom.knots[i].strand_dir.clone();
        assert(loom@.knots[i as int] == loom.knots@[i as int]@);
        self.store.register(remove_knot(loom, i));
        let (stopped, Ghost(unwatched)) = self.stop_watch(loom_id, knot_id, &strand_dir);
        let ghost first = stop_strand_watch(loom_id@, knot_id@, strand_dir@, unwatched);
        if let Err(e) = stopped {
            return (Err(e), Ghost(ConfigIo { unwatched, ..Self::no_io() }));
        }
        let ghost log = self.log_port.calls();
        let logged = self.trace.tell(
            &mut self.log_port,
            LoomEvent::KnotDeregistered {
                loom_id: loom_id.clone(),
                knot_id: knot_id.clone(),
                timestamp: format_timestamp(),
            },
        );
        let ghost given = ports::done(logged);
        proof {
            let next = registration::log_fact(
                crate::events::LoomFact::KnotDeregistered {
                    loom_id: loom_id@,
                    knot_id: knot_id@,
                },
                given,
            );
            assert(self.log_port.calls() =~= log + next.log);
            assert(first.log + next.log =~= next.log);
            assert(first.source + next.source =~= first.source);
            assert(first.dirs + next.dirs =~= next.dirs);
            assert(self.trace.acts() =~= old(self).trace.acts() + (first.acts + next.acts));
        }
        (logged, Ghost(ConfigIo { unwatched, logged: given, ..Self::no_io() }))
    }
}

// ── Laws ───────────────────────────────────────────────────────────────

/// An action that fails changes nothing.
pub proof fn failed_actions_change_nothing(
    store: Map<Seq<char>, LoomView>,
    action: KnotActionView,
)
    requires
        managed(store, action).1 is Err,
    ensures
        managed(store, action).0 == store,
{
}

/// An action on one loom leaves the others alone.
pub proof fn actions_touch_one_loom(
    store: Map<Seq<char>, LoomView>,
    action: KnotActionView,
    other: Seq<char>,
)
    requires
        match action {
            KnotActionView::Create { loom_id, .. } => loom_id != other,
            KnotActionView::Update { loom_id, .. } => loom_id != other,
            KnotActionView::Delete { loom_id, .. } => loom_id != other,
        },
    ensures
        managed(store, action).0.contains_key(other) == store.contains_key(other),
        store.contains_key(other) ==> managed(store, action).0[other] == store[other],
{
}

proof fn pushed_knot_is_last(loom: LoomView, knot: KnotView)
    requires
        loom.position(knot.id) is None,
    ensures
        with_knot(loom, knot).position(knot.id) == Some(loom.knots.len() as int),
{
    let longer = with_knot(loom, knot);
    let n = loom.knots.len() as int;
    assert forall|j: int| 0 <= j < n implies (#[trigger] longer.knots[j]).id != knot.id by {
        if loom.knots[j].id == knot.id {
            first_knot_exists(loom, knot.id, j);
        }
    }
    assert(longer.first_at(knot.id, n));
    let p = longer.position(knot.id)->0;
    assert(longer.first_at(knot.id, p));
    if p < n {
        assert(longer.knots[p].id != knot.id);
    }
}

proof fn first_knot_exists(loom: LoomView, knot_id: Seq<char>, i: int)
    requires
        0 <= i < loom.knots.len(),
        loom.knots[i].id == knot_id,
    ensures
        loom.position(knot_id) is Some,
    decreases i,
{
    if exists|j: int| 0 <= j < i && (#[trigger] loom.knots[j]).id == knot_id {
        let j = choose|j: int| 0 <= j < i && (#[trigger] loom.knots[j]).id == knot_id;
        first_knot_exists(loom, knot_id, j);
    } else {
        assert(loom.first_at(knot_id, i));
    }
}

/// Deleting a knot that was just created brings the store back.
pub proof fn delete_undoes_create(
    store: Map<Seq<char>, LoomView>,
    loom_id: Seq<char>,
    knot: KnotView,
)
    requires
        managed(store, KnotActionView::Create { loom_id, knot }).1 is Ok,
    ensures
        ({
            let created = managed(store, KnotActionView::Create { loom_id, knot }).0;
            let deleted = managed(
                created,
                KnotActionView::Delete { loom_id, knot_id: knot.id },
            );
            deleted.1 is Ok && deleted.0 == store
        }),
{
    let loom = store[loom_id];
    pushed_knot_is_last(loom, knot);
    let created = managed(store, KnotActionView::Create { loom_id, knot }).0;
    let n = loom.knots.len() as int;
    assert(without_knot_at(with_knot(loom, knot), n).knots =~= loom.knots);
    let deleted = managed(created, KnotActionView::Delete { loom_id, knot_id: knot.id });
    assert(deleted.0 =~= store);
}

/// A knot that was created is there, and is refused a second time.
pub proof fn created_knots_are_there(
    store: Map<Seq<char>, LoomView>,
    loom_id: Seq<char>,
    knot: KnotView,
)
    requires
        managed(store, KnotActionView::Create { loom_id, knot }).1 is Ok,
    ensures
        ({
            let created = managed(store, KnotActionView::Create { loom_id, knot }).0;
            &&& created[loom_id].knots.last() == knot
            &&& managed(created, KnotActionView::Create { loom_id, knot }) == (
                created,
                Err::<(), PortErrorView>(knot_exists(loom_id, knot.id)),
            )
        }),
{
    pushed_knot_is_last(store[loom_id], knot);
}

/// Configuration events for one loom leave the other looms alone.
pub proof fn config_events_touch_one_loom(
    store: Map<Seq<char>, LoomView>,
    root: Seq<char>,
    event: ConfigEventView,
    io: ConfigIo,
    other: Seq<char>,
)
    requires
        match event {
            ConfigEventView::LoomAdded { loom_id, .. } => loom_id != other,
            ConfigEventView::KnotAdded { loom_id, .. } => loom_id != other,
            ConfigEventView::KnotModified { loom_id, .. } => loom_id != other,
            ConfigEventView::KnotDeleted { loom_id, .. } => loom_id != other,
        },
    ensures
        configured(store, root, event, io).store.contains_key(other) == store.contains_key(other),
        store.contains_key(other) ==> configured(store, root, event, io).store[other]
            == store[other],
{
}

/// A loom or knot that is there already is not added twice: nothing is done.
pub proof fn additions_are_idempotent(
    store: Map<Seq<char>, LoomView>,
    root: Seq<char>,
    loom_id: Seq<char>,
    loom_dir: Seq<char>,
    knot: KnotView,
    io: ConfigIo,
)
    requires
        store.contains_key(loom_id),
    ensures
        configured(store, root, ConfigEventView::LoomAdded { loom_id, loom_dir }, io) == only(
            store,
            Ok(()),
        ),
        store[loom_id].position(knot.id) is Some ==> configured(
            store,
            root,
            ConfigEventView::KnotAdded { loom_id, knot },
            io,
        ) == only(store, Ok(())),
{
}

/// An update replaces the whole knot, and that knot alone: where the loom holds
/// a knot of this name, its first one becomes the knot that was given, field
/// for field, every other knot stays as it is where it is, and a loom or knot
/// that is not there is refused.
pub proof fn updates_replace_the_knot(
    store: Map<Seq<char>, LoomView>,
    loom_id: Seq<char>,
    knot: KnotView,
    at: int,
)
    ensures
        ({
            let (after, result) = managed(store, KnotActionView::Update { loom_id, knot });
            &&& !store.contains_key(loom_id) ==> result == Err::<(), PortErrorView>(
                PortErrorView::LoomNotFound(loom_id),
            ) && after == store
            &&& store.contains_key(loom_id) && (forall|j: int|
                0 <= j < store[loom_id].knots.len() ==> (#[trigger] store[loom_id].knots[j]).id
                    != knot.id) ==> result == Err::<(), PortErrorView>(
                PortErrorView::LoomSaveFailed(
                    "knot '"@ + knot.id + "' not found in loom '"@ + loom_id + "'"@,
                ),
            ) && after == store
            &&& store.contains_key(loom_id) && 0 <= at < store[loom_id].knots.len()
                && store[loom_id].knots[at].id == knot.id && (forall|j: int|
                0 <= j < at ==> (#[trigger] store[loom_id].knots[j]).id != knot.id) ==> {
                &&& result is Ok
                &&& after.contains_key(loom_id)
                &&& after[loom_id].id == store[loom_id].id
                &&& after[loom_id].knots.len() == store[loom_id].knots.len()
                &&& after[loom_id].knots[at] == knot
                &&& forall|j: int|
                    0 <= j < store[loom_id].knots.len() && j != at ==> (
                    #[trigger] after[loom_id].knots[j]) == store[loom_id].knots[j]
            }
        }),
{
    if store.contains_key(loom_id) {
        let loom = store[loom_id];
        let p = loom.position(knot.id);
        if p is Some {
            assert(loom.first_at(knot.id, p->0));
        }
        if loom.first_at(knot.id, at) {
            if p->0 < at {
                assert(loom.knots[p->0].id != knot.id);
            } else if at < p->0 {
                assert(loom.knots[at].id != knot.id);
            }
        }
    }
}

/// A creation appends the knot as it was given behind the knots of the loom,
/// which stay as they are. A loom that is not there, and a name that the loom
/// holds already, are refused.
pub proof fn creations_append_the_knot(
    store: Map<Seq<char>, LoomView>,
    loom_id: Seq<char>,
    knot: KnotView,
)
    ensures
        ({
            let (after, result) = managed(store, KnotActionView::Create { loom_id, knot });
            let taken = exists|j: int|
                0 <= j < store[loom_id].knots.len() && (#[trigger] store[loom_id].knots[j]).id
                    == knot.id;
            &&& !store.contains_key(loom_id) ==> result == Err::<(), PortErrorView>(
                PortErrorView::LoomNotFound(loom_id),
            ) && after == store
            &&& store.contains_key(loom_id) && taken ==> result == Err::<(), PortErrorView>(
                PortErrorView::LoomSaveFailed(
                    "knot '"@ + knot.id + "' already exists in loom '"@ + loom_id + "'"@,
                ),
            ) && after == store
            &&& store.contains_key(loom_id) && !taken ==> {
                &&& result is Ok
                &&& after.contains_key(loom_id)
                &&& after[loom_id].id == store[loom_id].id
                &&& after[loom_id].knots == store[loom_id].knots.push(knot)
            }
        }),
{
    if store.contains_key(loom_id) {
        let loom = store[loom_id];
        if exists|j: int| 0 <= j < loom.knots.len() && (#[trigger] loom.knots[j]).id == knot.id {
            let j = choose|j: int|
                0 <= j < loom.knots.len() && (#[trigger] loom.knots[j]).id == knot.id;
            first_knot_exists(loom, knot.id, j);
        } else if loom.position(knot.id) is Some {
            assert(loom.first_at(knot.id, loom.position(knot.id)->0));
        }
    }
}

/// A deletion takes the first knot of the name out of its loom, and the others
/// stay in order. A loom or knot that is not there is refused.
pub proof fn deletions_remove_the_knot(
    store: Map<Seq<char>, LoomView>,
    loom_id: Seq<char>,
    knot_id: Seq<char>,
    at: int,
)
    ensures
        ({
            let (after, result) = managed(store, KnotActionView::Delete { loom_id, knot_id });
            &&& !store.contains_key(loom_id) ==> result == Err::<(), PortErrorView>(
                PortErrorView::LoomNotFound(loom_id),
            ) && after == store
            &&& store.contains_key(loom_id) && (forall|j: int|
                0 <= j < store[loom_id].knots.len() ==> (#[trigger] store[loom_id].knots[j]).id
                    != knot_id) ==> result == Err::<(), PortErrorView>(
                PortErrorView::LoomSaveFailed(
                    "knot '"@ + knot_id + "' not found in loom '"@ + loom_id + "'"@,
                ),
            ) && after == store
            &&& store.contains_key(loom_id) && 0 <= at < store[loom_id].knots.len()
                && store[loom_id].knots[at].id == knot_id && (forall|j: int|
                0 <= j < at ==> (#[trigger] store[loom_id].knots[j]).id != knot_id) ==> {
                &&& result is Ok
                &&& after.contains_key(loom_id)
                &&& after[loom_id].id == store[loom_id].id
                &&& after[loom_id].knots == store[loom_id].knots.take(at)
                    + store[loom_id].knots.skip(at + 1)
            }
        }),
{
    if store.contains_key(loom_id) {
        let loom = store[loom_id];
        let p = loom.position(knot_id);
        if p is Some {
            assert(loom.first_at(knot_id, p->0));
        }
        if loom.first_at(knot_id, at) {
            if p->0 < at {
                assert(loom.knots[p->0].id != knot_id);
            } else if at < p->0 {
                assert(loom.knots[at].id != knot_id);
            }
            assert(loom.knots.remove(at) =~= loom.knots.take(at) + loom.knots.skip(at + 1));
        }
    }
}

/// A modified knot takes effect as a whole: the first knot of its name becomes
/// the knot of the event, field for field, every other knot of the loom stays
/// as it is where it is. A strand directory that stayed is left alone; for
/// another one the old watch of this knot ends before the new directory is
/// seen to and watched.
#[verifier::spinoff_prover]
#[verifier::rlimit(40)]
pub proof fn modified_knots_take_effect(
    store: Map<Seq<char>, LoomView>,
    root: Seq<char>,
    loom_id: Seq<char>,
    knot: KnotView,
    io: ConfigIo,
    at: int,
)
    requires
        store.contains_key(loom_id),
        0 <= at < store[loom_id].knots.len(),
        store[loom_id].knots[at].id == knot.id,
        forall|j: int| 0 <= j < at ==> (#[trigger] store[loom_id].knots[j]).id != knot.id,
    ensures
        ({
            let c = configured(
                store,
                root,
                ConfigEventView::KnotModified { loom_id, knot },
                io,
            );
            let before = store[loom_id].knots;
            let after = c.store[loom_id].knots;
            &&& c.store.contains_key(loom_id)
            &&& c.store[loom_id].id == store[loom_id].id
            &&& after.len() == before.len()
            &&& after[at] == knot
            &&& forall|j: int|
                0 <= j < before.len() && j != at ==> #[trigger] after[j] == before[j]
            &&& c.repository.len() == 0
            &&& before[at].strand_dir == knot.strand_dir ==> {
                &&& c.steps.result is Ok
                &&& c.steps.log.len() == 0
                &&& c.steps.source.len() == 0
                &&& c.steps.dirs.len() == 0
            }
            &&& paths::path_key(before[at].strand_dir) != paths::path_key(knot.strand_dir) ==> {
                &&& c.steps.source.len() >= 1
                &&& c.steps.source[0] == (SourceCall::UnwatchWithType {
                    path: before[at].strand_dir,
                    watch_type: WatchTypeView::Strand(loom_id, knot.id),
                    answer: io.unwatched,
                })
                &&& io.unwatched is Ok ==> c.steps.dirs == seq![(knot.strand_dir, io.watch.dir)]
                &&& io.unwatched is Err ==> c.steps.result == Err::<(), PortErrorView>(
                    PortErrorView::EventUnwatchFailed(
                        "failed to unwatch '"@ + before[at].strand_dir + "': "@
                            + io.unwatched->Err_0.display(),
                    ),
                ) && c.steps.source.len() == 1 && c.steps.dirs.len() == 0
                &&& io.unwatched is Ok && io.watch.dir is Existing && io.watch.watched is Ok ==> {
                    &&& c.steps.result is Ok
                    &&& c.steps.source.len() == 3
                    &&& c.steps.source[1] == (SourceCall::SetLoomIds {
                        path: knot.strand_dir,
                        loom_id,
                        knot_id: knot.id,
                    })
                    &&& c.steps.source[2] == (SourceCall::Watch {
                        path: knot.strand_dir,
                        answer: io.watch.watched,
                    })
                }
            }
        }),
{
    let loom = store[loom_id];
    assert(loom.first_at(knot.id, at));
    let p = loom.position(knot.id)->0;
    assert(loom.first_at(knot.id, p));
    if p < at {
        assert(loom.knots[p].id != knot.id);
    } else if at < p {
        assert(loom.knots[at].id != knot.id);
    }
    let c = configured(store, root, ConfigEventView::KnotModified { loom_id, knot }, io);
    let first = stop_strand_watch(loom_id, knot.id, loom.knots[at].strand_dir, io.unwatched);
    registration::directories_decide_the_watch(
        WatchFailure::Watch,
        loom_id,
        knot.id,
        knot.strand_dir,
        io.watch,
    );
    let next = registration::ensure_and_watch(
        WatchFailure::Watch,
        loom_id,
        knot.id,
        knot.strand_dir,
        io.watch,
    );
    assert(first.dirs + next.dirs =~= next.dirs);
}

/// An added knot joins the end of its loom as it was given, with the others as
/// they are; its registration is logged, and then its strand directory is seen
/// to and watched. A modified knot that the loom does not hold is added in the
/// same way.
pub proof fn added_knots_join_the_loom(
    store: Map<Seq<char>, LoomView>,
    root: Seq<char>,
    loom_id: Seq<char>,
    knot: KnotView,
    io: ConfigIo,
)
    requires
        store.contains_key(loom_id),
        forall|j: int|
            0 <= j < store[loom_id].knots.len() ==> (#[trigger] store[loom_id].knots[j]).id
                != knot.id,
    ensures
        ({
            let c = configured(store, root, ConfigEventView::KnotAdded { loom_id, knot }, io);
            &&& configured(store, root, ConfigEventView::KnotModified { loom_id, knot }, io) == c
            &&& c.store.contains_key(loom_id)
            &&& c.store[loom_id].id == store[loom_id].id
            &&& c.store[loom_id].knots == store[loom_id].knots.push(knot)
            &&& c.repository.len() == 0
            &&& c.steps.log.len() >= 1
            &&& c.steps.log[0] == (LoomLogCall::Append {
                fact: crate::events::LoomFact::KnotRegistered { loom_id, knot_id: knot.id },
                stamped: true,
                answer: io.logged,
            })
            &&& io.logged is Err ==> c.steps.result == io.logged && c.steps.source.len() == 0
                && c.steps.dirs.len() == 0
            &&& io.logged is Ok ==> c.steps.dirs == seq![(knot.strand_dir, io.watch.dir)]
            &&& io.logged is Ok && io.watch.dir is Existing && io.watch.watched is Ok ==> {
                &&& c.steps.result is Ok
                &&& c.steps.log.len() == 1
                &&& c.steps.source == seq![
                    SourceCall::SetLoomIds { path: knot.strand_dir, loom_id, knot_id: knot.id },
                    SourceCall::Watch { path: knot.strand_dir, answer: io.watch.watched },
                ]
            }
        }),
{
    let loom = store[loom_id];
    if loom.position(knot.id) is Some {
        assert(loom.first_at(knot.id, loom.position(knot.id)->0));
    }
    registration::directories_decide_the_watch(
        WatchFailure::Watch,
        loom_id,
        knot.id,
        knot.strand_dir,
        io.watch,
    );
    let next = registration::ensure_and_watch(
        WatchFailure::Watch,
        loom_id,
        knot.id,
        knot.strand_dir,
        io.watch,
    );
    let c = configured(store, root, ConfigEventView::KnotAdded { loom_id, knot }, io);
    if io.logged is Ok {
        assert(c.steps.dirs =~= next.dirs);
        assert(c.steps.source =~= next.source);
    }
}

/// A deleted knot leaves its loom, with the others in order; its own watch on
/// its strand directory ends, and then its deregistration is logged.
pub proof fn deleted_knots_leave_the_loom(
    store: Map<Seq<char>, LoomView>,
    root: Seq<char>,
    loom_id: Seq<char>,
    knot_id: Seq<char>,
    io: ConfigIo,
    at: int,
)
    requires
        store.contains_key(loom_id),
        0 <= at < store[loom_id].knots.len(),
        store[loom_id].knots[at].id == knot_id,
        forall|j: int| 0 <= j < at ==> (#[trigger] store[loom_id].knots[j]).id != knot_id,
    ensures
        ({
            let c = configured(
                store,
                root,
                ConfigEventView::KnotDeleted { loom_id, knot_id },
                io,
            );
            let knots = store[loom_id].knots;
            &&& c.store.contains_key(loom_id)
            &&& c.store[loom_id].id == store[loom_id].id
            &&& c.store[loom_id].knots == knots.take(at) + knots.skip(at + 1)
            &&& c.repository.len() == 0
            &&& c.steps.dirs.len() == 0
            &&& c.steps.source == seq![
                SourceCall::UnwatchWithType {
                    path: knots[at].strand_dir,
                    watch_type: WatchTypeView::Strand(loom_id, knot_id),
                    answer: io.unwatched,
                },
            ]
            &&& match io.unwatched {
                Ok(_) => {
                    &&& c.steps.log == seq![
                        LoomLogCall::Append {
                            fact: crate::events::LoomFact::KnotDeregistered { loom_id, knot_id },
                            stamped: true,
                            answer: io.logged,
                        },
                    ]
                    &&& c.steps.result == io.logged
                },
                Err(e) => {
                    &&& c.steps.log.len() == 0
                    &&& c.steps.result == Err::<(), PortErrorView>(
                        PortErrorView::EventUnwatchFailed(
                            "failed to unwatch '"@ + knots[at].strand_dir + "': "@ + e.display(),
                        ),
                    )
                },
            }
        }),
{
    let loom = store[loom_id];
    assert(loom.first_at(knot_id, at));
    let p = loom.position(knot_id)->0;
    assert(loom.first_at(knot_id, p));
    if p < at {
        assert(loom.knots[p].id != knot_id);
    } else if at < p {
        assert(loom.knots[at].id != knot_id);
    }
    assert(loom.knots.remove(at) =~= loom.knots.take(at) + loom.knots.skip(at + 1));
    let c = configured(store, root, ConfigEventView::KnotDeleted { loom_id, knot_id }, io);
    let first = stop_strand_watch(loom_id, knot_id, loom.knots[at].strand_dir, io.unwatched);
    assert(c.steps.source =~= first.source);
    assert(c.steps.log =~= if io.unwatched is Ok {
        seq![
            LoomLogCall::Append {
                fact: crate::events::LoomFact::KnotDeregistered { loom_id, knot_id },
                stamped: true,
                answer: io.logged,
            },
        ]
    } else {
        Seq::empty()
    });
}

/// A configuration event for a loom or knot that is not there is refused, and
/// nothing is done: a loom that is missing under its name, and a knot to delete
/// that its loom does not hold.
pub proof fn unknown_looms_and_knots_are_refused(
    store: Map<Seq<char>, LoomView>,
    root: Seq<char>,
    loom_id: Seq<char>,
    knot: KnotView,
    io: ConfigIo,
)
    requires
        store.contains_key(loom_id) ==> forall|j: int|
            0 <= j < store[loom_id].knots.len() ==> (#[trigger] store[loom_id].knots[j]).id
                != knot.id,
    ensures
        ({
            let added = configured(store, root, ConfigEventView::KnotAdded { loom_id, knot }, io);
            let changed = configured(
                store,
                root,
                ConfigEventView::KnotModified { loom_id, knot },
                io,
            );
            let gone = configured(
                store,
                root,
                ConfigEventView::KnotDeleted { loom_id, knot_id: knot.id },
                io,
            );
            let idle = |c: Configured|
                c.store == store && c.repository.len() == 0 && c.steps.log.len() == 0
                    && c.steps.source.len() == 0 && c.steps.dirs.len() == 0;
            let missing = Err::<(), PortErrorView>(PortErrorView::LoomNotFound(loom_id));
            &&& !store.contains_key(loom_id) ==> {
                &&& idle(added) && added.steps.result == missing
                &&& idle(changed) && changed.steps.result == missing
                &&& idle(gone) && gone.steps.result == missing
            }
            &&& store.contains_key(loom_id) ==> {
                &&& idle(gone)
                &&& gone.steps.result == Err::<(), PortErrorView>(
                    PortErrorView::LoomSaveFailed(
                        "knot '"@ + knot.id + "' not found in loom '"@ + loom_id + "'"@,
                    ),
                )
            }
        }),
{
    if store.contains_key(loom_id) && store[loom_id].position(knot.id) is Some {
        assert(store[loom_id].first_at(knot.id, store[loom_id].position(knot.id)->0));
    }
}

/// A loom directory that appears is scanned, and the loom is registered under
/// its name with the knots of the scan in order, each as it was found but for
/// its strand directory, which is taken below the project root. A scan that
/// fails is the result, and nothing else is done.
#[verifier::spinoff_prover]
#[verifier::rlimit(30)]
pub proof fn added_looms_hold_their_knots(
    store: Map<Seq<char>, LoomView>,
    root: Seq<char>,
    loom_id: Seq<char>,
    loom_dir: Seq<char>,
    io: ConfigIo,
    i: int,
)
    requires
        !store.contains_key(loom_id),
    ensures
        ({
            let c = configured(
                store,
                root,
                ConfigEventView::LoomAdded { loom_id, loom_dir },
                io,
            );
            &&& c.repository == seq![
                RepositoryCall::ScanKnotFiles { loom_dir, answer: io.scan },
            ]
            &&& match io.scan {
                Err(e) => {
                    &&& c.steps.result == Err::<(), PortErrorView>(e)
                    &&& c.store == store
                    &&& c.steps.log.len() == 0
                    &&& c.steps.source.len() == 0
                    &&& c.steps.dirs.len() == 0
                },
                Ok(scanned) => {
                    &&& c.steps.log.len() >= 1
                    &&& c.steps.log[0] == (LoomLogCall::Open {
                        loom_id,
                        answer: io.register.opened,
                    })
                    &&& c.steps.result is Ok ==> {
                        &&& c.store.contains_key(loom_id)
                        &&& c.store[loom_id].id == loom_id
                        &&& c.store[loom_id].knots.len() == scanned.0.len()
                        &&& 0 <= i < scanned.0.len() ==> c.store[loom_id].knots[i] == (KnotView {
                            strand_dir: paths::join(root, scanned.0[i].strand_dir),
                            ..scanned.0[i]
                        })
                    }
                    &&& c.store.contains_key(loom_id) || c.store == store
                    &&& io.register.opened is Err ==> c.store == store && c.steps.result
                        == io.register.opened
                },
            }
        }),
{
    if let Ok(scanned) = io.scan {
        let loom = LoomView { id: loom_id, knots: all_resolved(root, scanned.0) };
        registration::announcements_are_in_order(
            loom,
            scanned.1,
            io.register.opened,
            io.register.answers,
            0,
        );
        registration::announced_looms_are_stored(
            WatchFailure::Watch,
            store,
            loom,
            scanned.1,
            io.register,
        );
    }
}

/// A loom directory that appears is registered as any loom is, with the
/// warnings of its scan; a failed watch is told as such.
pub proof fn added_looms_are_registered(
    store: Map<Seq<char>, LoomView>,
    root: Seq<char>,
    loom_id: Seq<char>,
    loom_dir: Seq<char>,
    io: ConfigIo,
    knots: Seq<KnotView>,
    warnings: Seq<Seq<char>>,
)
    requires
        !store.contains_key(loom_id),
        io.scan == Ok::<(Seq<KnotView>, Seq<Seq<char>>), PortErrorView>((knots, warnings)),
    ensures
        ({
            let c = configured(
                store,
                root,
                ConfigEventView::LoomAdded { loom_id, loom_dir },
                io,
            );
            let loom = LoomView {
                id: loom_id,
                knots: Seq::new(
                    knots.len(),
                    |i: int|
                        KnotView {
                            strand_dir: paths::join(root, knots[i].strand_dir),
                            ..knots[i]
                        },
                ),
            };
            &&& c.steps == registration::register_steps(
                WatchFailure::Watch,
                loom,
                warnings,
                io.register,
            )
            &&& c.store == registration::register_store(store, loom, warnings, io.register)
        }),
{
    assert(all_resolved(root, knots) =~= Seq::new(
        knots.len(),
        |i: int|
            KnotView { strand_dir: paths::join(root, knots[i].strand_dir), ..knots[i] },
    ));
}

/// A loom that is registered already is not registered again, nor scanned; and
/// a knot that its loom holds already is not added again.
pub proof fn known_looms_and_knots_are_left_alone(
    store: Map<Seq<char>, LoomView>,
    root: Seq<char>,
    loom_id: Seq<char>,
    loom_dir: Seq<char>,
    knot: KnotView,
    io: ConfigIo,
    at: int,
)
    requires
        store.contains_key(loom_id),
    ensures
        ({
            let c = configured(
                store,
                root,
                ConfigEventView::LoomAdded { loom_id, loom_dir },
                io,
            );
            &&& c.steps.result is Ok
            &&& c.store == store
            &&& c.repository.len() == 0
            &&& c.steps.log.len() == 0
            &&& c.steps.source.len() == 0
            &&& c.steps.dirs.len() == 0
        }),
        0 <= at < store[loom_id].knots.len() && store[loom_id].knots[at].id == knot.id ==> {
            let c = configured(store, root, ConfigEventView::KnotAdded { loom_id, knot }, io);
            &&& c.steps.result is Ok
            &&& c.store == store
            &&& c.repository.len() == 0
            &&& c.steps.log.len() == 0
            &&& c.steps.source.len() == 0
            &&& c.steps.dirs.len() == 0
        },
{
    if 0 <= at < store[loom_id].knots.len() && store[loom_id].knots[at].id == knot.id {
        crate::entities::knots_are_found_by_name(store[loom_id], knot.id, at);
    }
}

} // verus!
