//! Use cases on whole looms: discover, reload, register, unregister, and look
//! up.

use crate::clock::format_timestamp;
use crate::entities::{KnotView, Loom, LoomId, LoomView};
use crate::errors::{PortError, PortErrorView};
use crate::events::{LoomEvent, LoomFact};
use crate::outside;
use crate::outside::Outside;
use crate::ports;
use crate::ports::{
    Answer, EventSource, LoomLogCall, LoomLogPort, LoomRepository, RepositoryCall, SourceCall,
};
use crate::store;
use crate::store::LoomStore;
use crate::text;
use crate::trace::{Act, Trace};
use crate::usecases::registration;
use crate::usecases::registration::{
    register_loom, RegisterIo, Steps, StrandDir, WatchFailure,
};
use vstd::prelude::*;
use vstd::string::*;

verus! {

// ── Discovering ────────────────────────────────────────────────────────

/// What a discovery did, the store behind it, and the looms it registered.
pub struct Discovery {
    pub steps: Steps,
    pub store: Map<Seq<char>, LoomView>,
    pub found: Seq<LoomView>,
}

/// Register those looms that the store does not hold yet, in order, up to the
/// first failure.
pub open spec fn discovery(
    store: Map<Seq<char>, LoomView>,
    looms: Seq<LoomView>,
    warnings: Seq<Seq<char>>,
    ios: Seq<RegisterIo>,
) -> Discovery
    decreases looms.len(),
{
    if looms.len() == 0 {
        Discovery { steps: Steps::nothing(), store, found: Seq::empty() }
    } else {
        let before = discovery(store, looms.drop_last(), warnings, ios);
        let loom = looms.last();
        if before.steps.result is Err || before.store.contains_key(loom.id) {
            before
        } else {
            let io = ios[looms.len() - 1];
            let steps = registration::register_steps(WatchFailure::Save, loom, warnings, io);
            Discovery {
                steps: before.steps.follow(steps),
                store: registration::register_store(before.store, loom, warnings, io),
                found: if steps.result is Ok {
                    before.found.push(loom)
                } else {
                    before.found
                },
            }
        }
    }
}

/// The discovery in what a scan found. A scan that failed finds nothing.
pub open spec fn discovery_of(
    store: Map<Seq<char>, LoomView>,
    scan: Answer<(Seq<LoomView>, Seq<Seq<char>>)>,
    ios: Seq<RegisterIo>,
) -> Discovery {
    match scan {
        Ok(scanned) => discovery(store, scanned.0, scanned.1, ios),
        Err(e) => Discovery { steps: Steps::failing(e), store, found: Seq::empty() },
    }
}

/// What a discovery gives: the looms it registered, or the first failure.
pub open spec fn discovered(d: Discovery) -> Answer<Seq<LoomView>> {
    match d.steps.result {
        Ok(_) => Ok(d.found),
        Err(e) => Err(e),
    }
}

proof fn discovery_reads_its_answers(
    store: Map<Seq<char>, LoomView>,
    looms: Seq<LoomView>,
    warnings: Seq<Seq<char>>,
    ios: Seq<RegisterIo>,
    more: Seq<RegisterIo>,
)
    requires
        looms.len() <= ios.len() <= more.len(),
        forall|i: int| 0 <= i < ios.len() ==> ios[i] == more[i],
    ensures
        discovery(store, looms, warnings, ios) == discovery(store, looms, warnings, more),
    decreases looms.len(),
{
    if looms.len() > 0 {
        discovery_reads_its_answers(store, looms.drop_last(), warnings, ios, more);
    }
}

proof fn discovery_stops_at_failure(
    store: Map<Seq<char>, LoomView>,
    looms: Seq<LoomView>,
    n: int,
    warnings: Seq<Seq<char>>,
    ios: Seq<RegisterIo>,
)
    requires
        0 <= n <= looms.len(),
        discovery(store, looms.take(n), warnings, ios).steps.result is Err,
    ensures
        discovery(store, looms, warnings, ios) == discovery(store, looms.take(n), warnings, ios),
    decreases looms.len(),
{
    if n == looms.len() {
        assert(looms.take(n) =~= looms);
    } else {
        assert(looms.drop_last().take(n) =~= looms.take(n));
        discovery_stops_at_failure(store, looms.drop_last(), n, warnings, ios);
    }
}

/// Scan a workspace, and register the looms that are new.
fn discover_looms<
    R: LoomRepository,
    L: LoomLogPort,
    E: EventSource,
    D: Fn(&String) -> StrandDir,
>(
    repository: &mut R,
    log_port: &mut L,
    store: &mut LoomStore,
    event_source: &mut E,
    ensure_dir: &mut Outside<String, StrandDir, D>,
    trace: &mut Trace,
    workspace: &str,
) -> (r: (
    Result<Vec<Loom>, PortError>,
    Ghost<(Answer<(Seq<LoomView>, Seq<Seq<char>>)>, Seq<RegisterIo>)>,
))
    requires
        old(ensure_dir).ready(),
    ensures
        ({
            let (scan, ios) = r.1@;
            let d = discovery_of(old(store)@, scan, ios);
            &&& final(repository).calls() == old(repository).calls().push(
                RepositoryCall::Scan { rig: workspace@, answer: scan },
            )
            &&& final(log_port).calls() == old(log_port).calls() + d.steps.log
            &&& final(event_source).calls() == old(event_source).calls() + d.steps.source
            &&& outside::asked(*old(ensure_dir), *final(ensure_dir), d.steps.dirs)
            &&& final(trace).acts() == old(trace).acts() + d.steps.acts
            &&& final(store)@ == d.store
            &&& ports::answered_all(r.0) == discovered(d)
        }),
{
    let ghost log = log_port.calls();
    let ghost source = event_source.calls();
    let ghost known = store@;
    let ghost mut ios: Seq<RegisterIo> = Seq::empty();
    assert(log + Seq::<LoomLogCall>::empty() =~= log);
    assert(source + Seq::<SourceCall>::empty() =~= source);
    assert(trace.acts() + Seq::<Act>::empty() =~= trace.acts());
    proof {
        outside::nothing_asked(*ensure_dir);
    }
    let scanned = repository.scan(workspace);
    let ghost scan = ports::answered_scan(scanned);
    let (looms, warnings) = match scanned {
        Ok(found) => found,
        Err(e) => {
            return (Err(e), Ghost((scan, ios)));
        },
    };
    let ghost all = text::views(looms@);
    let ghost told = text::texts(warnings@);
    let mut new_looms: Vec<Loom> = Vec::new();
    assert(all.take(0) =~= Seq::empty());
    assert(text::views(new_looms@) =~= Seq::empty());
    let n = looms.len();
    for i in 0..n
        invariant
            ensure_dir.ready(),
            n == looms@.len(),
            all == text::views(looms@),
            told == text::texts(warnings@),
            scan == Ok::<(Seq<LoomView>, Seq<Seq<char>>), PortErrorView>((all, told)),
            log == old(log_port).calls(),
            source == old(event_source).calls(),
            known == old(store)@,
            repository.calls() == old(repository).calls().push(
                RepositoryCall::Scan { rig: workspace@, answer: scan },
            ),
            ios.len() == i,
            ({
                let d = discovery(known, all.take(i as int), told, ios);
                &&& log_port.calls() == log + d.steps.log
                &&& event_source.calls() == source + d.steps.source
                &&& outside::asked(*old(ensure_dir), *ensure_dir, d.steps.dirs)
                &&& trace.acts() == old(trace).acts() + d.steps.acts
                &&& d.steps.result is Ok
                &&& store@ == d.store
                &&& text::views(new_looms@) == d.found
            }),
    {
        broadcast use text::views_push;

        let loom = &looms[i];
        let ghost before = discovery(known, all.take(i as int), told, ios);
        let ghost dirs = *ensure_dir;
        let ghost mut io = RegisterIo {
            opened: Ok(()),
            answers: Seq::empty(),
            watches: Seq::empty(),
        };
        proof {
            assert(all.take(i + 1).drop_last() =~= all.take(i as int));
            assert(all.take(i + 1).last() == loom@);
        }
        if store.get(&loom.id).is_none() {
            let (answer, Ghost(given)) = register_loom(
                log_port,
                store,
                event_source,
                ensure_dir,
                trace,
                WatchFailure::Save,
                loom,
                &warnings,
            );
            let ghost more = ios.push(given);
            proof {
                let steps = registration::register_steps(
                    WatchFailure::Save,
                    loom@,
                    told,
                    given,
                );
                io = given;
                discovery_reads_its_answers(known, all.take(i as int), told, ios, more);
                assert(log + (before.steps.log + steps.log) =~= (log + before.steps.log)
                    + steps.log);
                assert(source + (before.steps.source + steps.source) =~= (source
                    + before.steps.source) + steps.source);
                assert(old(trace).acts() + (before.steps.acts + steps.acts) =~= (old(trace).acts()
                    + before.steps.acts) + steps.acts);
                outside::asked_in_order(
                    *old(ensure_dir),
                    dirs,
                    *ensure_dir,
                    before.steps.dirs,
                    steps.dirs,
                );
            }
            if let Err(e) = answer {
                proof {
                    discovery_stops_at_failure(known, all, i + 1, told, more);
                }
                return (Err(e), Ghost((scan, more)));
            }
            new_looms.push(loom.clone());
        }
        proof {
            let more = ios.push(io);
            discovery_reads_its_answers(known, all.take(i as int), told, ios, more);
            ios = more;
        }
    }
    assert(all.take(n as int) =~= all);
    (Ok(new_looms), Ghost((scan, ios)))
}

/// Use case: discover looms in a workspace and register any new ones.
///
/// Looms that the store holds are skipped. Each other loom is announced in its
/// log and stored, and its strand directories are watched, created first where
/// they are missing.
pub struct DiscoverLooms<
    R: LoomRepository,
    L: LoomLogPort,
    E: EventSource,
    D: Fn(&String) -> StrandDir,
> {
    pub repository: R,
    pub log_port: L,
    pub store: LoomStore,
    pub event_source: E,
    pub ensure_dir: Outside<String, StrandDir, D>,
    /// The calls on the ports behind the repository, in one order.
    pub trace: Trace,
}

impl<
    R: LoomRepository,
    L: LoomLogPort,
    E: EventSource,
    D: Fn(&String) -> StrandDir,
> DiscoverLooms<R, L, E, D> {
    /// Create a new `DiscoverLooms` use case.
    pub fn new(
        repository: R,
        log_port: L,
        store: LoomStore,
        event_source: E,
        ensure_dir: D,
    ) -> (use_case: Self)
        ensures
            use_case.repository == repository,
            use_case.log_port == log_port,
            use_case.store == store,
            use_case.event_source == event_source,
            use_case.ensure_dir.source() == ensure_dir,
            use_case.ensure_dir.calls() == Seq::<(Seq<char>, StrandDir)>::empty(),
            use_case.trace.acts() == Seq::<Act>::empty(),
    {
        DiscoverLooms {
            repository,
            log_port,
            store,
            event_source,
            ensure_dir: Outside::new(ensure_dir),
            trace: Trace::new(),
        }
    }

    /// Execute discovery against the given workspace path.
    ///
    /// Returns the newly discovered looms.
    pub fn execute(&mut self, workspace: &str) -> (result: Result<Vec<Loom>, PortError>)
        requires
            old(self).ensure_dir.ready(),
        ensures
            exists|scan: Answer<(Seq<LoomView>, Seq<Seq<char>>)>, ios: Seq<RegisterIo>|
                {
                    let d = #[trigger] discovery_of(old(self).store@, scan, ios);
                    &&& final(self).repository.calls() == old(self).repository.calls().push(
                        RepositoryCall::Scan { rig: workspace@, answer: scan },
                    )
                    &&& final(self).log_port.calls() == old(self).log_port.calls() + d.steps.log
                    &&& final(self).event_source.calls() == old(self).event_source.calls()
                        + d.steps.source
                    &&& outside::asked(
                        old(self).ensure_dir,
                        final(self).ensure_dir,
                        d.steps.dirs,
                    )
                    &&& final(self).trace.acts() == old(self).trace.acts() + d.steps.acts
                    &&& final(self).store@ == d.store
                    &&& ports::answered_all(result) == discovered(d)
                },
    {
        let ghost known = self.store@;
        let (result, Ghost(io)) = discover_looms(
            &mut self.repository,
            &mut self.log_port,
            &mut self.store,
            &mut self.event_source,
            &mut self.ensure_dir,
            &mut self.trace,
            workspace,
        );
        let ghost d = discovery_of(known, io.0, io.1);
        result
    }
}

/// The names of looms.
pub open spec fn names(looms: Seq<LoomView>) -> Seq<Seq<char>> {
    looms.map_values(|loom: LoomView| loom.id)
}

/// Use case: re-scan the rig and register any looms that the store does not
/// hold yet.
pub struct ReloadConfig<
    R: LoomRepository,
    L: LoomLogPort,
    E: EventSource,
    D: Fn(&String) -> StrandDir,
> {
    pub repository: R,
    pub log_port: L,
    pub store: LoomStore,
    pub event_source: E,
    pub rig_dir: String,
    pub ensure_dir: Outside<String, StrandDir, D>,
    /// The calls on the ports behind the repository, in one order.
    pub trace: Trace,
}

impl<
    R: LoomRepository,
    L: LoomLogPort,
    E: EventSource,
    D: Fn(&String) -> StrandDir,
> ReloadConfig<R, L, E, D> {
    /// Create a new `ReloadConfig` use case.
    pub fn new(
        repository: R,
        log_port: L,
        store: LoomStore,
        event_source: E,
        rig_dir: String,
        ensure_dir: D,
    ) -> (use_case: Self)
        ensures
            use_case.repository == repository,
            use_case.log_port == log_port,
            use_case.store == store,
            use_case.event_source == event_source,
            use_case.rig_dir == rig_dir,
            use_case.ensure_dir.source() == ensure_dir,
            use_case.ensure_dir.calls() == Seq::<(Seq<char>, StrandDir)>::empty(),
            use_case.trace.acts() == Seq::<Act>::empty(),
    {
        ReloadConfig {
            repository,
            log_port,
            store,
            event_source,
            rig_dir,
            ensure_dir: Outside::new(ensure_dir),
            trace: Trace::new(),
        }
    }

    /// Re-scan the rig and register any looms that the store does not hold
    /// yet.
    ///
    /// Returns the names of the newly registered looms.
    pub fn execute(&mut self) -> (result: Result<Vec<LoomId>, PortError>)
        requires
            old(self).ensure_dir.ready(),
        ensures
            exists|scan: Answer<(Seq<LoomView>, Seq<Seq<char>>)>, ios: Seq<RegisterIo>|
                {
                    let d = #[trigger] discovery_of(old(self).store@, scan, ios);
                    &&& final(self).repository.calls() == old(self).repository.calls().push(
                        RepositoryCall::Scan { rig: old(self).rig_dir@, answer: scan },
                    )
                    &&& final(self).log_port.calls() == old(self).log_port.calls() + d.steps.log
                    &&& final(self).event_source.calls() == old(self).event_source.calls()
                        + d.steps.source
                    &&& outside::asked(
                        old(self).ensure_dir,
                        final(self).ensure_dir,
                        d.steps.dirs,
                    )
                    &&& final(self).trace.acts() == old(self).trace.acts() + d.steps.acts
                    &&& final(self).store@ == d.store
                    &&& ports::answered_all(result) == (match discovered(d) {
                        Ok(looms) => Ok(names(looms)),
                        Err(e) => Err(e),
                    })
                },
            final(self).rig_dir == old(self).rig_dir,
    {
        broadcast use text::views_push;

        let ghost known = self.store@;
        let (result, Ghost(io)) = discover_looms(
            &mut self.repository,
            &mut self.log_port,
            &mut self.store,
            &mut self.event_source,
            &mut self.ensure_dir,
            &mut self.trace,
            self.rig_dir.as_str(),
        );
        let ghost d = discovery_of(known, io.0, io.1);
        match result {
            Ok(looms) => {
                let mut ids: Vec<LoomId> = Vec::new();
                let ghost all = text::views(looms@);
                for i in 0..looms.len()
                    invariant
                        all == text::views(looms@),
                        text::views(ids@) =~= names(all.take(i as int)),
                {
                    ids.push(looms[i].id.clone());
                    assert(names(all.take(i + 1)) =~= names(all.take(i as int)).push(all[i as int].id));
                }
                assert(all.take(looms@.len() as int) =~= all);
                Ok(ids)
            },
            Err(e) => Err(e),
        }
    }
}

// ── Registering ────────────────────────────────────────────────────────

/// Use case: register a single loom.
///
/// The loom is announced in its log and stored, and its strand directories are
/// watched.
pub struct RegisterLoom<L: LoomLogPort, E: EventSource, D: Fn(&String) -> StrandDir> {
    pub log_port: L,
    pub store: LoomStore,
    pub event_source: E,
    pub ensure_dir: Outside<String, StrandDir, D>,
    /// The calls on the ports behind the repository, in one order.
    pub trace: Trace,
}

impl<L: LoomLogPort, E: EventSource, D: Fn(&String) -> StrandDir> RegisterLoom<L, E, D> {
    /// Create a new `RegisterLoom` use case.
    pub fn new(log_port: L, store: LoomStore, event_source: E, ensure_dir: D) -> (use_case: Self)
        ensures
            use_case.log_port == log_port,
            use_case.store == store,
            use_case.event_source == event_source,
            use_case.ensure_dir.source() == ensure_dir,
            use_case.ensure_dir.calls() == Seq::<(Seq<char>, StrandDir)>::empty(),
            use_case.trace.acts() == Seq::<Act>::empty(),
    {
        RegisterLoom {
            log_port,
            store,
            event_source,
            ensure_dir: Outside::new(ensure_dir),
            trace: Trace::new(),
        }
    }

    /// Register the given loom.
    ///
    /// Idempotent: a loom that is registered already is left alone.
    pub fn execute(&mut self, loom: Loom) -> (result: Result<(), PortError>)
        requires
            old(self).ensure_dir.ready(),
        ensures
            old(self).store@.contains_key(loom@.id) ==> result is Ok && final(self).store@
                == old(self).store@ && final(self).log_port.calls() == old(self).log_port.calls()
                && final(self).event_source.calls() == old(self).event_source.calls()
                && final(self).ensure_dir == old(self).ensure_dir && final(self).trace == old(
                self,
            ).trace,
            !old(self).store@.contains_key(loom@.id) ==> exists|io: RegisterIo|
                {
                    let steps = #[trigger] registration::register_steps(
                        WatchFailure::Save,
                        loom@,
                        Seq::empty(),
                        io,
                    );
                    &&& final(self).log_port.calls() == old(self).log_port.calls() + steps.log
                    &&& final(self).event_source.calls() == old(self).event_source.calls()
                        + steps.source
                    &&& outside::asked(
                        old(self).ensure_dir,
                        final(self).ensure_dir,
                        steps.dirs,
                    )
                    &&& final(self).trace.acts() == old(self).trace.acts() + steps.acts
                    &&& ports::done(result) == steps.result
                    &&& final(self).store@ == registration::register_store(
                        old(self).store@,
                        loom@,
                        Seq::empty(),
                        io,
                    )
                },
    {
        if self.store.get(&loom.id).is_some() {
            return Ok(());
        }
        let warnings: Vec<String> = Vec::new();
        assert(text::texts(warnings@) =~= Seq::empty());
        let (result, Ghost(io)) = register_loom(
            &mut self.log_port,
            &mut self.store,
            &mut self.event_source,
            &mut self.ensure_dir,
            &mut self.trace,
            WatchFailure::Save,
            &loom,
            &warnings,
        );
        let ghost steps = registration::register_steps(
            WatchFailure::Save,
            loom@,
            Seq::empty(),
            io,
        );
        result
    }
}

// ── Unregistering ──────────────────────────────────────────────────────

/// Stop to watch a directory.
pub open spec fn stop_watch(path: Seq<char>, answer: Answer<()>) -> Steps {
    let call = SourceCall::Unwatch { path, answer };
    Steps {
        source: seq![call],
        acts: seq![Act::Source(call)],
        result: match answer {
            Ok(_) => Ok(()),
            Err(e) => Err(unwatch_error(path, e)),
        },
        ..Steps::nothing()
    }
}

/// The error of a directory that could not be unwatched.
pub open spec fn unwatch_error(path: Seq<char>, cause: PortErrorView) -> PortErrorView {
    PortErrorView::EventUnwatchFailed("failed to unwatch '"@ + path + "': "@ + cause.display())
}

/// Build the error of a directory that could not be unwatched.
pub(crate) fn unwatch_failed(path: &str, cause: &PortError) -> (error: PortError)
    ensures
        error@ == unwatch_error(path@, cause@),
{
    let mut message = "failed to unwatch '".to_string();
    message.append(path);
    message.append("': ");
    message.append(cause.display().as_str());
    PortError::EventUnwatchFailed(message)
}

/// Stop to watch the strand directories of knots in order, up to the first
/// failure.
pub open spec fn unwatch_all(knots: Seq<KnotView>, answers: Seq<Answer<()>>) -> Steps
    decreases knots.len(),
{
    if knots.len() == 0 {
        Steps::nothing()
    } else {
        unwatch_all(knots.drop_last(), answers).follow(
            stop_watch(knots.last().strand_dir, answers[knots.len() - 1]),
        )
    }
}

/// Stop to watch a loom's strand directories, and log that it has stopped.
pub open spec fn unregister_steps(
    loom: LoomView,
    answers: Seq<Answer<()>>,
    stopped: Answer<()>,
) -> Steps {
    unwatch_all(loom.knots, answers).follow(
        registration::log_fact(LoomFact::LoomStopped { loom_id: loom.id }, stopped),
    )
}

proof fn unwatch_all_reads_its_answers(
    knots: Seq<KnotView>,
    answers: Seq<Answer<()>>,
    more: Seq<Answer<()>>,
)
    requires
        knots.len() <= answers.len() <= more.len(),
        forall|i: int| 0 <= i < answers.len() ==> answers[i] == more[i],
    ensures
        unwatch_all(knots, answers) == unwatch_all(knots, more),
    decreases knots.len(),
{
    if knots.len() > 0 {
        unwatch_all_reads_its_answers(knots.drop_last(), answers, more);
    }
}

proof fn unwatch_all_stops_at_failure(knots: Seq<KnotView>, n: int, answers: Seq<Answer<()>>)
    requires
        0 <= n <= knots.len(),
        unwatch_all(knots.take(n), answers).result is Err,
    ensures
        unwatch_all(knots, answers) == unwatch_all(knots.take(n), answers),
    decreases knots.len(),
{
    if n == knots.len() {
        assert(knots.take(n) =~= knots);
    } else {
        assert(knots.drop_last().take(n) =~= knots.take(n));
        unwatch_all_stops_at_failure(knots.drop_last(), n, answers);
    }
}

proof fn unwatch_all_only_unwatches(knots: Seq<KnotView>, answers: Seq<Answer<()>>)
    ensures
        unwatch_all(knots, answers).log.len() == 0,
        unwatch_all(knots, answers).dirs.len() == 0,
    decreases knots.len(),
{
    if knots.len() > 0 {
        unwatch_all_only_unwatches(knots.drop_last(), answers);
    }
}

/// Use case: unregister a loom.
///
/// Its strand directories are no longer watched, its log is told that it has
/// stopped, and it leaves the store.
pub struct UnregisterLoom<L: LoomLogPort, E: EventSource> {
    pub log_port: L,
    pub store: LoomStore,
    pub event_source: E,
    /// The calls on the ports, in one order.
    pub trace: Trace,
}

impl<L: LoomLogPort, E: EventSource> UnregisterLoom<L, E> {
    /// Create a new `UnregisterLoom` use case.
    pub fn new(log_port: L, store: LoomStore, event_source: E) -> (use_case: Self)
        ensures
            use_case.log_port == log_port,
            use_case.store == store,
            use_case.event_source == event_source,
            use_case.trace.acts() == Seq::<Act>::empty(),
    {
        UnregisterLoom { log_port, store, event_source, trace: Trace::new() }
    }

    /// Unregister the loom with the given ID.
    ///
    /// Returns `PortError::LoomNotFound` if the loom is not in the store, and
    /// does nothing then.
    pub fn execute(&mut self, id: &LoomId) -> (result: Result<(), PortError>)
        ensures
            !old(self).store@.contains_key(id@) ==> ports::done(result) == Err::<(), PortErrorView>(
                PortErrorView::LoomNotFound(id@),
            ) && final(self).store@ == old(self).store@ && final(self).log_port.calls() == old(
                self,
            ).log_port.calls() && final(self).event_source.calls() == old(
                self,
            ).event_source.calls() && final(self).trace == old(self).trace,
            old(self).store@.contains_key(id@) ==> exists|
                answers: Seq<Answer<()>>,
                stopped: Answer<()>,
            |
                {
                    let steps = #[trigger] unregister_steps(
                        old(self).store@[id@],
                        answers,
                        stopped,
                    );
                    &&& final(self).log_port.calls() == old(self).log_port.calls() + steps.log
                    &&& final(self).event_source.calls() == old(self).event_source.calls()
                        + steps.source
                    &&& final(self).trace.acts() == old(self).trace.acts() + steps.acts
                    &&& ports::done(result) == steps.result
                    &&& final(self).store@ == (if steps.result is Ok {
                        old(self).store@.remove(id@)
                    } else {
                        old(self).store@
                    })
                },
    {
        let ghost log = self.log_port.calls();
        let ghost source = self.event_source.calls();
        let ghost known = self.store@;
        let ghost acts = self.trace.acts();
        let loom = match self.store.get(id) {
            Some(loom) => loom,
            None => {
                return Err(PortError::LoomNotFound(id.clone()));
            },
        };
        let ghost knots = loom@.knots;
        let ghost mut answers: Seq<Answer<()>> = Seq::empty();
        assert(log + Seq::<LoomLogCall>::empty() =~= log);
        assert(source + Seq::<SourceCall>::empty() =~= source);
        assert(acts + Seq::<Act>::empty() =~= acts);
        assert(knots.take(0) =~= Seq::empty());
        let n = loom.knots.len();
        for i in 0..n
            invariant
                n == loom.knots@.len(),
                known == old(self).store@,
                known.contains_key(id@),
                known[id@] == loom@,
                self.store@ == known,
                log == old(self).log_port.calls(),
                source == old(self).event_source.calls(),
                knots == loom@.knots,
                self.log_port.calls() == log,
                answers.len() == i,
                unwatch_all(knots.take(i as int), answers).result is Ok,
                self.event_source.calls() == source + unwatch_all(
                    knots.take(i as int),
                    answers,
                ).source,
                acts == old(self).trace.acts(),
                self.trace.acts() == acts + unwatch_all(knots.take(i as int), answers).acts,
        {
            let ghost before = unwatch_all(knots.take(i as int), answers);
            let answer = self.trace.unwatch(
                &mut self.event_source,
                loom.knots[i].strand_dir.as_str(),
            );
            let ghost more = answers.push(ports::done(answer));
            proof {
                let step = stop_watch(knots[i as int].strand_dir, ports::done(answer));
                assert(knots.take(i + 1).drop_last() =~= knots.take(i as int));
                assert(knots.take(i + 1).last() == knots[i as int]);
                unwatch_all_reads_its_answers(knots.take(i as int), answers, more);
                assert(unwatch_all(knots.take(i + 1), more) == before.follow(step));
                assert((source + before.source).push(step.source[0]) =~= source + (before.source
                    + step.source));
                assert((acts + before.acts).push(step.acts[0]) =~= acts + (before.acts
                    + step.acts));
                answers = more;
            }
            if let Err(e) = answer {
                let error = unwatch_failed(loom.knots[i].strand_dir.as_str(), &e);
                proof {
                    unwatch_all_stops_at_failure(knots, i + 1, answers);
                    unwatch_all_only_unwatches(knots, answers);
                    let steps = unregister_steps(loom@, answers, Ok(()));
                    assert(log + steps.log =~= log);
                }
                return Err(error);
            }
        }
        assert(knots.take(n as int) =~= knots);
        let stopped = self.trace.tell(
            &mut self.log_port,
            LoomEvent::LoomStopped { loom_id: id.clone(), timestamp: format_timestamp() },
        );
        proof {
            unwatch_all_only_unwatches(knots, answers);
            let steps = unregister_steps(loom@, answers, ports::done(stopped));
            assert(self.log_port.calls() =~= log + steps.log);
            let first = unwatch_all(knots, answers);
            assert(self.trace.acts() =~= acts + steps.acts);
            assert(first.source + Seq::<SourceCall>::empty() =~= first.source);
        }
        if let Err(e) = stopped {
            return Err(e);
        }
        self.store.unregister(id);
        Ok(())
    }
}

// ── Looking up ─────────────────────────────────────────────────────────

/// A summary of a loom.
#[derive(Debug, PartialEq, Eq)]
pub struct LoomSummary {
    /// The loom's unique ID.
    pub id: LoomId,
    /// Number of knots in this loom.
    pub knot_count: usize,
}

impl Clone for LoomSummary {
    fn clone(&self) -> (copy: Self)
        ensures
            copy == *self,
    {
        LoomSummary { id: self.id.clone(), knot_count: self.knot_count }
    }
}

/// The summary tells the loom's name and the number of its knots.
pub open spec fn summarises(summary: LoomSummary, loom: LoomView) -> bool {
    &&& summary.id@ == loom.id
    &&& summary.knot_count == loom.knots.len()
}

/// Use case: list all registered looms as summaries.
pub struct ListLooms {
    pub store: LoomStore,
}

impl ListLooms {
    /// Create a new `ListLooms` use case.
    pub fn new(store: LoomStore) -> (use_case: Self)
        ensures
            use_case.store == store,
    {
        ListLooms { store }
    }

    /// Return summaries of all registered looms, in the order of the store's
    /// listing. It lists every loom, and none twice.
    pub fn execute(&self) -> (summaries: Vec<LoomSummary>)
        ensures
            summaries@.len() == self.store.listing().len(),
            forall|i: int|
                0 <= i < summaries@.len() ==> summarises(
                    #[trigger] summaries@[i],
                    self.store.listing()[i],
                ),
            store::distinct(self.store.listing()),
            forall|id: Seq<char>| #[trigger]
                self.store@.contains_key(id) <==> exists|i: int|
                    0 <= i < summaries@.len() && (#[trigger] summaries@[i]).id@ == id,
    {
        let looms = self.store.list();
        let mut summaries: Vec<LoomSummary> = Vec::new();
        let ghost all = self.store.listing();
        for i in 0..looms.len()
            invariant
                all == text::views(looms@),
                summaries@.len() == i,
                forall|j: int|
                    0 <= j < i ==> summarises(#[trigger] summaries@[j], all[j]),
        {
            summaries.push(
                LoomSummary { id: looms[i].id.clone(), knot_count: looms[i].knots.len() },
            );
            assert(all[i as int] == looms@[i as int]@);
        }
        proof {
            assert forall|id: Seq<char>| #[trigger]
                self.store@.contains_key(id) <==> exists|i: int|
                    0 <= i < summaries@.len() && (#[trigger] summaries@[i]).id@ == id by {
                store::listing_is_complete(self.store, id);
                if self.store@.contains_key(id) {
                    let i = choose|i: int| 0 <= i < all.len() && (#[trigger] all[i]).id == id;
                    assert(summaries@[i].id@ == id);
                }
                if exists|i: int| 0 <= i < summaries@.len() && (#[trigger] summaries@[i]).id@
                    == id {
                    let i = choose|i: int|
                        0 <= i < summaries@.len() && (#[trigger] summaries@[i]).id@ == id;
                    assert(all[i].id == id);
                }
            }
        }
        summaries
    }
}

/// Use case: retrieve a full loom by ID.
pub struct GetLoom {
    pub store: LoomStore,
}

impl GetLoom {
    /// Create a new `GetLoom` use case.
    pub fn new(store: LoomStore) -> (use_case: Self)
        ensures
            use_case.store == store,
    {
        GetLoom { store }
    }

    /// Return the full loom with the given ID, or `PortError::LoomNotFound`.
    pub fn execute(&self, id: &LoomId) -> (result: Result<Loom, PortError>)
        ensures
            ports::answered(result) == (if self.store@.contains_key(id@) {
                Ok(self.store@[id@])
            } else {
                Err(PortErrorView::LoomNotFound(id@))
            }),
    {
        match self.store.get(id) {
            Some(loom) => Ok(loom),
            None => Err(PortError::LoomNotFound(id.clone())),
        }
    }
}

/// Use case: read the activity log for a loom.
pub struct GetLoomActivity<L: LoomLogPort> {
    pub log_port: L,
}

impl<L: LoomLogPort> GetLoomActivity<L> {
    /// Create a new `GetLoomActivity` use case.
    pub fn new(log_port: L) -> (use_case: Self)
        ensures
            use_case.log_port == log_port,
    {
        GetLoomActivity { log_port }
    }

    /// Return all log entries for the given loom: what its log answers.
    pub fn execute(&mut self, loom_id: &LoomId) -> (result: Result<Vec<LoomEvent>, PortError>)
        ensures
            final(self).log_port.calls() == old(self).log_port.calls().push(
                LoomLogCall::ReadAll { loom_id: loom_id@, answer: ports::answered_all(result) },
            ),
    {
        self.log_port.read_all(loom_id)
    }
}

// ── Laws ───────────────────────────────────────────────────────────────

/// Nothing that is registered is ever lost or changed by a discovery, and what
/// it found is registered when it succeeds.
pub proof fn discovery_only_adds(
    store: Map<Seq<char>, LoomView>,
    looms: Seq<LoomView>,
    warnings: Seq<Seq<char>>,
    ios: Seq<RegisterIo>,
)
    ensures
        ({
            let d = discovery(store, looms, warnings, ios);
            &&& forall|id: Seq<char>| #[trigger]
                store.contains_key(id) ==> d.store.contains_key(id) && d.store[id] == store[id]
            &&& forall|i: int|
                0 <= i < d.found.len() ==> !store.contains_key((#[trigger] d.found[i]).id)
            &&& d.steps.result is Ok ==> forall|i: int|
                0 <= i < looms.len() ==> d.store.contains_key((#[trigger] looms[i]).id)
        }),
    decreases looms.len(),
{
    if looms.len() > 0 {
        discovery_only_adds(store, looms.drop_last(), warnings, ios);
        let before = discovery(store, looms.drop_last(), warnings, ios);
        let d = discovery(store, looms, warnings, ios);
        if d.steps.result is Ok {
            assert forall|i: int| 0 <= i < looms.len() implies d.store.contains_key(
                (#[trigger] looms[i]).id,
            ) by {
                if i < looms.len() - 1 {
                    assert(looms.drop_last()[i] == looms[i]);
                }
            }
        }
        assert forall|i: int| 0 <= i < d.found.len() implies !store.contains_key(
            (#[trigger] d.found[i]).id,
        ) by {
            if i < before.found.len() {
                assert(d.found[i] == before.found[i]);
            }
        }
    }
}

/// The loom at a place is new: the store does not hold one of its name, and
/// none of its name stands before it.
pub open spec fn is_new(
    store: Map<Seq<char>, LoomView>,
    looms: Seq<LoomView>,
    i: int,
) -> bool {
    &&& !store.contains_key(looms[i].id)
    &&& forall|j: int| 0 <= j < i ==> (#[trigger] looms[j]).id != looms[i].id
}

/// The looms that are new, in order.
pub open spec fn new_looms(store: Map<Seq<char>, LoomView>, looms: Seq<LoomView>) -> Seq<LoomView>
    decreases looms.len(),
{
    if looms.len() == 0 {
        Seq::empty()
    } else {
        let before = new_looms(store, looms.drop_last());
        if is_new(store, looms, looms.len() - 1) {
            before.push(looms.last())
        } else {
            before
        }
    }
}

/// A store with looms registered in order.
pub open spec fn with_looms(store: Map<Seq<char>, LoomView>, looms: Seq<LoomView>) -> Map<
    Seq<char>,
    LoomView,
>
    decreases looms.len(),
{
    if looms.len() == 0 {
        store
    } else {
        with_looms(store, looms.drop_last()).insert(looms.last().id, looms.last())
    }
}

/// What a discovery registers under a name has that name in the scan.
proof fn discovery_adds_no_other(
    store: Map<Seq<char>, LoomView>,
    looms: Seq<LoomView>,
    warnings: Seq<Seq<char>>,
    ios: Seq<RegisterIo>,
    id: Seq<char>,
)
    requires
        discovery(store, looms, warnings, ios).store.contains_key(id),
    ensures
        store.contains_key(id) || exists|j: int|
            0 <= j < looms.len() && (#[trigger] looms[j]).id == id,
    decreases looms.len(),
{
    if looms.len() > 0 {
        let rest = looms.drop_last();
        if discovery(store, rest, warnings, ios).store.contains_key(id) {
            discovery_adds_no_other(store, rest, warnings, ios, id);
            if !store.contains_key(id) {
                let j = choose|j: int| 0 <= j < rest.len() && (#[trigger] rest[j]).id == id;
                assert(looms[j].id == id);
            }
        } else {
            assert(looms[looms.len() - 1].id == id);
        }
    }
}

/// A discovery that succeeds finds exactly the scanned looms that the store
/// lacks, in the order of the scan and the first of each name, and the store
/// grows by just those.
pub proof fn discovery_is_exact(
    store: Map<Seq<char>, LoomView>,
    looms: Seq<LoomView>,
    warnings: Seq<Seq<char>>,
    ios: Seq<RegisterIo>,
)
    requires
        discovery(store, looms, warnings, ios).steps.result is Ok,
    ensures
        ({
            let d = discovery(store, looms, warnings, ios);
            &&& d.found == new_looms(store, looms)
            &&& d.store == with_looms(store, new_looms(store, looms))
        }),
    decreases looms.len(),
{
    if looms.len() > 0 {
        let rest = looms.drop_last();
        let last = looms.len() - 1;
        let before = discovery(store, rest, warnings, ios);
        discovery_is_exact(store, rest, warnings, ios);
        discovery_only_adds(store, rest, warnings, ios);
        let id = looms.last().id;
        assert(is_new(store, looms, last) == !before.store.contains_key(id)) by {
            if before.store.contains_key(id) {
                discovery_adds_no_other(store, rest, warnings, ios, id);
                if !store.contains_key(id) {
                    let j = choose|j: int| 0 <= j < rest.len() && (#[trigger] rest[j]).id == id;
                    assert(looms[j].id == id);
                }
            } else {
                assert forall|j: int| 0 <= j < last implies (#[trigger] looms[j]).id != id by {
                    assert(rest[j] == looms[j]);
                }
            }
        }
        let found = new_looms(store, rest);
        assert(found.push(looms.last()).drop_last() =~= found);
    }
}

/// A discovery where every loom is registered already does nothing, and finds
/// nothing.
pub proof fn known_looms_are_skipped(
    store: Map<Seq<char>, LoomView>,
    looms: Seq<LoomView>,
    warnings: Seq<Seq<char>>,
    ios: Seq<RegisterIo>,
)
    requires
        forall|i: int| 0 <= i < looms.len() ==> store.contains_key((#[trigger] looms[i]).id),
    ensures
        discovery(store, looms, warnings, ios) == (Discovery {
            steps: Steps::nothing(),
            store,
            found: Seq::empty(),
        }),
    decreases looms.len(),
{
    if looms.len() > 0 {
        assert forall|i: int| 0 <= i < looms.len() - 1 implies store.contains_key(
            (#[trigger] looms.drop_last()[i]).id,
        ) by {
            assert(looms.drop_last()[i] == looms[i]);
        }
        known_looms_are_skipped(store, looms.drop_last(), warnings, ios);
    }
}

/// A second discovery of the same looms, behind one that succeeded, finds
/// nothing new and does nothing.
pub proof fn discovery_is_idempotent(
    store: Map<Seq<char>, LoomView>,
    looms: Seq<LoomView>,
    warnings: Seq<Seq<char>>,
    ios: Seq<RegisterIo>,
    again: Seq<RegisterIo>,
)
    requires
        discovery(store, looms, warnings, ios).steps.result is Ok,
    ensures
        ({
            let d = discovery(store, looms, warnings, ios);
            discovery(d.store, looms, warnings, again) == (Discovery {
                steps: Steps::nothing(),
                store: d.store,
                found: Seq::empty(),
            })
        }),
{
    discovery_only_adds(store, looms, warnings, ios);
    known_looms_are_skipped(discovery(store, looms, warnings, ios).store, looms, warnings, again);
}

/// The call stops the watch on the knot's strand directory.
pub open spec fn unwatched(call: SourceCall, knot: KnotView) -> bool {
    call matches SourceCall::Unwatch { path, answer } && path == knot.strand_dir && answer is Ok
}

/// A loom that is unregistered without a failure has every strand directory of
/// its knots unwatched, in order, and its log told at the end that it has
/// stopped.
pub proof fn stopped_looms_are_unwatched_in_full(
    loom: LoomView,
    answers: Seq<Answer<()>>,
    stopped: Answer<()>,
)
    requires
        unregister_steps(loom, answers, stopped).result is Ok,
    ensures
        ({
            let steps = unregister_steps(loom, answers, stopped);
            &&& steps.source.len() == loom.knots.len()
            &&& forall|i: int|
                0 <= i < loom.knots.len() ==> unwatched(steps.source[i], #[trigger] loom.knots[i])
            &&& steps.log.len() == 1
            &&& registration::took(steps.log[0], LoomFact::LoomStopped { loom_id: loom.id })
            &&& steps.acts.last() == Act::Log(steps.log[0])
        }),
{
    unwatch_all_only_unwatches(loom.knots, answers);
    knots_are_unwatched_in_full(loom.knots, answers);
    let first = unwatch_all(loom.knots, answers);
    let steps = unregister_steps(loom, answers, stopped);
    assert(steps.source =~= first.source);
    assert(steps.log =~= registration::log_fact(
        LoomFact::LoomStopped { loom_id: loom.id },
        stopped,
    ).log);
}

proof fn knots_are_unwatched_in_full(knots: Seq<KnotView>, answers: Seq<Answer<()>>)
    requires
        unwatch_all(knots, answers).result is Ok,
    ensures
        unwatch_all(knots, answers).source.len() == knots.len(),
        forall|i: int|
            0 <= i < knots.len() ==> unwatched(
                unwatch_all(knots, answers).source[i],
                #[trigger] knots[i],
            ),
    decreases knots.len(),
{
    if knots.len() > 0 {
        let rest = knots.drop_last();
        knots_are_unwatched_in_full(rest, answers);
        let before = unwatch_all(rest, answers).source;
        let source = unwatch_all(knots, answers).source;
        assert forall|i: int| 0 <= i < knots.len() implies unwatched(
            source[i],
            #[trigger] knots[i],
        ) by {
            if i < rest.len() {
                assert(rest[i] == knots[i]);
                assert(source[i] == before[i]);
            }
        }
    }
}

/// To unregister a loom undoes its registration in the store.
pub proof fn unregistering_undoes_registering(
    store: Map<Seq<char>, LoomView>,
    loom: LoomView,
    warnings: Seq<Seq<char>>,
    io: RegisterIo,
)
    requires
        !store.contains_key(loom.id),
    ensures
        registration::register_store(store, loom, warnings, io).remove(loom.id) == store,
{
    assert(store.insert(loom.id, loom).remove(loom.id) =~= store);
    assert(store.remove(loom.id) =~= store);
}

/// A scan that fails is what a discovery gives, with nothing done.
pub proof fn failed_scans_discover_nothing(
    store: Map<Seq<char>, LoomView>,
    e: PortErrorView,
    ios: Seq<RegisterIo>,
)
    ensures
        ({
            let d = discovery_of(store, Err(e), ios);
            &&& discovered(d) == Err::<Seq<LoomView>, PortErrorView>(e)
            &&& d.store == store
            &&& d.steps.log.len() == 0
            &&& d.steps.source.len() == 0
            &&& d.steps.dirs.len() == 0
            &&& d.steps.acts.len() == 0
        }),
{
}

/// One more loom of a scan adds its registration behind what was done before,
/// with the warnings of the scan, where the store lacks it by then. Its failure
/// is what the discovery gives, whatever was found before; and behind a failure
/// nothing more is done.
pub proof fn discoveries_register_in_turn(
    store: Map<Seq<char>, LoomView>,
    looms: Seq<LoomView>,
    loom: LoomView,
    warnings: Seq<Seq<char>>,
    ios: Seq<RegisterIo>,
)
    ensures
        ({
            let before = discovery_of(
                store,
                Ok::<_, PortErrorView>((looms, warnings)),
                ios,
            );
            let after = discovery_of(
                store,
                Ok::<_, PortErrorView>((looms.push(loom), warnings)),
                ios,
            );
            let io = ios[looms.len() as int];
            let own = registration::register_steps(WatchFailure::Save, loom, warnings, io);
            &&& discovered(before) is Err ==> after == before
            &&& discovered(before) is Ok && before.store.contains_key(loom.id) ==> after == before
            &&& discovered(before) is Ok && !before.store.contains_key(loom.id) ==> {
                &&& after.steps.log == before.steps.log + own.log
                &&& after.steps.source == before.steps.source + own.source
                &&& after.steps.dirs == before.steps.dirs + own.dirs
                &&& after.steps.acts == before.steps.acts + own.acts
                &&& own.result is Ok ==> discovered(after) == Ok::<Seq<LoomView>, PortErrorView>(
                    discovered(before)->Ok_0.push(loom),
                ) && after.store == before.store.insert(loom.id, loom)
                &&& own.result is Err ==> discovered(after) == Err::<
                    Seq<LoomView>,
                    PortErrorView,
                >(own.result->Err_0)
            }
        }),
{
    assert(looms.push(loom).drop_last() =~= looms);
}

/// The names of looms are their own names, in their order.
pub proof fn names_are_in_order(looms: Seq<LoomView>, i: int)
    ensures
        names(looms).len() == looms.len(),
        0 <= i < looms.len() ==> names(looms)[i] == looms[i].id,
{
}

proof fn unwatching_stops_at(knots: Seq<KnotView>, answers: Seq<Answer<()>>, i: int)
    requires
        0 <= i < knots.len(),
        forall|j: int| 0 <= j < i ==> (#[trigger] answers[j]) is Ok,
        answers[i] is Err,
    ensures
        ({
            let steps = unwatch_all(knots, answers);
            &&& steps.source.len() == i + 1
            &&& steps.result == Err::<(), PortErrorView>(
                PortErrorView::EventUnwatchFailed(
                    "failed to unwatch '"@ + knots[i].strand_dir + "': "@
                        + answers[i]->Err_0.display(),
                ),
            )
        }),
    decreases knots.len(),
{
    let rest = knots.drop_last();
    if i < rest.len() {
        unwatching_stops_at(rest, answers, i);
    } else {
        unwatching_goes_on(rest, answers);
    }
}

proof fn unwatching_goes_on(knots: Seq<KnotView>, answers: Seq<Answer<()>>)
    requires
        forall|j: int| 0 <= j < knots.len() ==> (#[trigger] answers[j]) is Ok,
    ensures
        unwatch_all(knots, answers).result is Ok,
        unwatch_all(knots, answers).source.len() == knots.len(),
    decreases knots.len(),
{
    if knots.len() > 0 {
        unwatching_goes_on(knots.drop_last(), answers);
    }
}

/// To unregister a loom ends at the first directory that cannot be unwatched,
/// whose error is the result, with its log told nothing. When all of them can
/// be, the result is what the log says to the loom's end.
pub proof fn failed_unwatches_end_unregistering(
    loom: LoomView,
    answers: Seq<Answer<()>>,
    stopped: Answer<()>,
    i: int,
)
    requires
        0 <= i <= loom.knots.len(),
        forall|j: int| 0 <= j < i ==> (#[trigger] answers[j]) is Ok,
        i < loom.knots.len() ==> answers[i] is Err,
    ensures
        ({
            let steps = unregister_steps(loom, answers, stopped);
            &&& i < loom.knots.len() ==> {
                &&& steps.source.len() == i + 1
                &&& steps.log.len() == 0
                &&& steps.result == Err::<(), PortErrorView>(
                    PortErrorView::EventUnwatchFailed(
                        "failed to unwatch '"@ + loom.knots[i].strand_dir + "': "@
                            + answers[i]->Err_0.display(),
                    ),
                )
            }
            &&& i == loom.knots.len() ==> {
                &&& steps.source.len() == i
                &&& steps.log == seq![
                    LoomLogCall::Append {
                        fact: LoomFact::LoomStopped { loom_id: loom.id },
                        stamped: true,
                        answer: stopped,
                    },
                ]
                &&& steps.result == stopped
            }
        }),
{
    unwatch_all_only_unwatches(loom.knots, answers);
    if i < loom.knots.len() {
        unwatching_stops_at(loom.knots, answers, i);
    } else {
        unwatching_goes_on(loom.knots, answers);
        assert(unregister_steps(loom, answers, stopped).log =~= seq![
            LoomLogCall::Append {
                fact: LoomFact::LoomStopped { loom_id: loom.id },
                stamped: true,
                answer: stopped,
            },
        ]);
    }
}

} // verus!
