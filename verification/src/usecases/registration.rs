//! Registering a loom: what is logged, stored and watched, and in which order.

use crate::clock;
use crate::clock::format_timestamp;
use crate::entities::{Knot, KnotId, KnotView, Loom, LoomId, LoomView};
use crate::errors::{PortError, PortErrorView};
use crate::events::{LoomEvent, LoomFact};
use crate::outside;
use crate::outside::Outside;
use crate::ports;
use crate::ports::{Answer, EventSource, LoomLogCall, LoomLogPort, SourceCall};
use crate::store::LoomStore;
use crate::text;
use crate::trace::{Act, Trace};
use vstd::prelude::*;
use vstd::string::*;

verus! {

// ── Steps ──────────────────────────────────────────────────────────────

/// What became of a strand directory that is to be watched.
#[derive(Debug, PartialEq, Eq)]
pub enum StrandDir {
    /// It was there.
    Existing,
    /// It was missing, and has been created with its parents.
    Created,
    /// It was missing, and could not be created.
    Failed(String),
}

/// What a procedure did, in order on each port, and how it ended: the log
/// calls, the watcher calls and the directories that it saw to.
pub struct Steps {
    pub log: Seq<LoomLogCall>,
    pub source: Seq<SourceCall>,
    pub dirs: Seq<(Seq<char>, StrandDir)>,
    /// All of these, in the order in which they happened.
    pub acts: Seq<Act>,
    pub result: Answer<()>,
}

impl Steps {
    /// No step at all.
    pub open spec fn nothing() -> Steps {
        Steps {
            log: Seq::empty(),
            source: Seq::empty(),
            dirs: Seq::empty(),
            acts: Seq::empty(),
            result: Ok(()),
        }
    }

    /// A procedure that ends with an error at once.
    pub open spec fn failing(error: PortErrorView) -> Steps {
        Steps { result: Err(error), ..Steps::nothing() }
    }

    /// These steps, and further ones unless these failed.
    pub open spec fn follow(self, next: Steps) -> Steps {
        if self.result is Err {
            self
        } else {
            Steps {
                log: self.log + next.log,
                source: self.source + next.source,
                dirs: self.dirs + next.dirs,
                acts: self.acts + next.acts,
                result: next.result,
            }
        }
    }
}

/// Append one event to the loom's log.
pub open spec fn log_fact(fact: LoomFact, answer: Answer<()>) -> Steps {
    let call = LoomLogCall::Append { fact, stamped: true, answer };
    Steps {
        log: seq![call],
        acts: seq![Act::Log(call)],
        result: answer,
        ..Steps::nothing()
    }
}

/// Append events to the loom's log, up to the first that it refuses.
pub open spec fn log_all(facts: Seq<LoomFact>, answers: Seq<Answer<()>>) -> Steps
    decreases facts.len(),
{
    if facts.len() == 0 {
        Steps::nothing()
    } else {
        log_all(facts.drop_last(), answers).follow(
            log_fact(facts.last(), answers[facts.len() - 1]),
        )
    }
}

/// Open the loom's log.
pub open spec fn open_log(loom_id: Seq<char>, answer: Answer<()>) -> Steps {
    let call = LoomLogCall::Open { loom_id, answer };
    Steps {
        log: seq![call],
        acts: seq![Act::Log(call)],
        result: answer,
        ..Steps::nothing()
    }
}

// ── Announcing ─────────────────────────────────────────────────────────

/// A knot has been registered.
pub open spec fn registered_fact(loom_id: Seq<char>, knot_id: Seq<char>) -> LoomFact {
    LoomFact::KnotRegistered { loom_id, knot_id }
}

/// A knot file held something unknown.
pub open spec fn warning_fact(loom_id: Seq<char>, message: Seq<char>) -> LoomFact {
    LoomFact::KnotParseWarning { loom_id, knot_file_name: Seq::empty(), message }
}

/// What a loom's log is told when the loom is registered: its knots, the
/// warnings, and that it has started.
pub open spec fn announcement(loom: LoomView, warnings: Seq<Seq<char>>) -> Seq<LoomFact> {
    Seq::new(loom.knots.len(), |i: int| registered_fact(loom.id, loom.knots[i].id)) + Seq::new(
        warnings.len(),
        |i: int| warning_fact(loom.id, warnings[i]),
    ) + seq![LoomFact::LoomStarted { loom_id: loom.id }]
}

/// Open a loom's log and announce the loom there.
pub open spec fn announce(
    loom: LoomView,
    warnings: Seq<Seq<char>>,
    opened: Answer<()>,
    answers: Seq<Answer<()>>,
) -> Steps {
    open_log(loom.id, opened).follow(log_all(announcement(loom, warnings), answers))
}

// ── Watching ───────────────────────────────────────────────────────────

/// What kind of error a failed watch is reported as.
#[derive(Debug, Clone, Copy, PartialEq, Eq)]
pub enum WatchFailure {
    /// As a failure to save the loom.
    Save,
    /// As a failure to watch.
    Watch,
}

impl WatchFailure {
    /// The error.
    pub open spec fn error(self, message: Seq<char>) -> PortErrorView {
        match self {
            WatchFailure::Save => PortErrorView::LoomSaveFailed(message),
            WatchFailure::Watch => PortErrorView::EventWatchFailed(message),
        }
    }

    /// Build the error.
    fn build(self, message: String) -> (error: PortError)
        ensures
            error@ == self.error(message@),
    {
        match self {
            WatchFailure::Save => PortError::LoomSaveFailed(message),
            WatchFailure::Watch => PortError::EventWatchFailed(message),
        }
    }
}

/// What the outside answers around the watch of one strand directory.
pub struct WatchIo {
    pub dir: StrandDir,
    pub logged: Answer<()>,
    pub watched: Answer<()>,
}

/// Start to watch a strand directory.
pub open spec fn start_watch(
    failure: WatchFailure,
    loom_id: Seq<char>,
    knot_id: Seq<char>,
    strand_dir: Seq<char>,
    watched: Answer<()>,
) -> Steps {
    let name = SourceCall::SetLoomIds { path: strand_dir, loom_id, knot_id };
    let watch = SourceCall::Watch { path: strand_dir, answer: watched };
    Steps {
        source: seq![name, watch],
        acts: seq![Act::Source(name), Act::Source(watch)],
        result: match watched {
            Ok(_) => Ok(()),
            Err(e) => Err(
                failure.error("failed to watch '"@ + strand_dir + "': "@ + e.display()),
            ),
        },
        ..Steps::nothing()
    }
}

/// See to it that a strand directory exists, log its creation, and watch it.
pub open spec fn ensure_and_watch(
    failure: WatchFailure,
    loom_id: Seq<char>,
    knot_id: Seq<char>,
    strand_dir: Seq<char>,
    io: WatchIo,
) -> Steps {
    let seen = Steps {
        dirs: seq![(strand_dir, io.dir)],
        acts: seq![Act::Dir(strand_dir, io.dir)],
        ..Steps::nothing()
    };
    let watch = start_watch(failure, loom_id, knot_id, strand_dir, io.watched);
    match io.dir {
        StrandDir::Failed(reason) => seen.follow(
            Steps::failing(
                failure.error("failed to create strand dir '"@ + strand_dir + "': "@ + reason@),
            ),
        ),
        StrandDir::Created => seen.follow(
            log_fact(
                LoomFact::DirectoryCreated { loom_id, knot_id, directory: strand_dir },
                io.logged,
            ),
        ).follow(watch),
        StrandDir::Existing => seen.follow(watch),
    }
}

/// Watch the strand directories of knots in order, up to the first failure.
pub open spec fn watch_all(
    failure: WatchFailure,
    loom_id: Seq<char>,
    knots: Seq<KnotView>,
    ios: Seq<WatchIo>,
) -> Steps
    decreases knots.len(),
{
    if knots.len() == 0 {
        Steps::nothing()
    } else {
        watch_all(failure, loom_id, knots.drop_last(), ios).follow(
            ensure_and_watch(
                failure,
                loom_id,
                knots.last().id,
                knots.last().strand_dir,
                ios[knots.len() - 1],
            ),
        )
    }
}

// ── Registering ────────────────────────────────────────────────────────

/// What the outside answers around the registration of a loom.
pub struct RegisterIo {
    pub opened: Answer<()>,
    pub answers: Seq<Answer<()>>,
    pub watches: Seq<WatchIo>,
}

/// Announce a loom, and watch its strand directories.
pub open spec fn register_steps(
    failure: WatchFailure,
    loom: LoomView,
    warnings: Seq<Seq<char>>,
    io: RegisterIo,
) -> Steps {
    announce(loom, warnings, io.opened, io.answers).follow(
        watch_all(failure, loom.id, loom.knots, io.watches),
    )
}

/// The store behind a registration: the loom is in it once it has been
/// announced.
pub open spec fn register_store(
    store: Map<Seq<char>, LoomView>,
    loom: LoomView,
    warnings: Seq<Seq<char>>,
    io: RegisterIo,
) -> Map<Seq<char>, LoomView> {
    if announce(loom, warnings, io.opened, io.answers).result is Ok {
        store.insert(loom.id, loom)
    } else {
        store
    }
}

// ── Proofs ─────────────────────────────────────────────────────────────

proof fn log_all_reads_its_answers(
    facts: Seq<LoomFact>,
    answers: Seq<Answer<()>>,
    more: Seq<Answer<()>>,
)
    requires
        facts.len() <= answers.len() <= more.len(),
        forall|i: int| 0 <= i < answers.len() ==> answers[i] == more[i],
    ensures
        log_all(facts, answers) == log_all(facts, more),
    decreases facts.len(),
{
    if facts.len() > 0 {
        log_all_reads_its_answers(facts.drop_last(), answers, more);
    }
}

proof fn log_all_stops_at_refusal(facts: Seq<LoomFact>, n: int, answers: Seq<Answer<()>>)
    requires
        0 <= n <= facts.len(),
        log_all(facts.take(n), answers).result is Err,
    ensures
        log_all(facts, answers) == log_all(facts.take(n), answers),
    decreases facts.len(),
{
    if n == facts.len() {
        assert(facts.take(n) =~= facts);
    } else {
        assert(facts.drop_last().take(n) =~= facts.take(n));
        log_all_stops_at_refusal(facts.drop_last(), n, answers);
    }
}

proof fn watch_all_reads_its_answers(
    failure: WatchFailure,
    loom_id: Seq<char>,
    knots: Seq<KnotView>,
    ios: Seq<WatchIo>,
    more: Seq<WatchIo>,
)
    requires
        knots.len() <= ios.len() <= more.len(),
        forall|i: int| 0 <= i < ios.len() ==> ios[i] == more[i],
    ensures
        watch_all(failure, loom_id, knots, ios) == watch_all(failure, loom_id, knots, more),
    decreases knots.len(),
{
    if knots.len() > 0 {
        watch_all_reads_its_answers(failure, loom_id, knots.drop_last(), ios, more);
    }
}

proof fn watch_all_stops_at_failure(
    failure: WatchFailure,
    loom_id: Seq<char>,
    knots: Seq<KnotView>,
    n: int,
    ios: Seq<WatchIo>,
)
    requires
        0 <= n <= knots.len(),
        watch_all(failure, loom_id, knots.take(n), ios).result is Err,
    ensures
        watch_all(failure, loom_id, knots, ios) == watch_all(failure, loom_id, knots.take(n), ios),
    decreases knots.len(),
{
    if n == knots.len() {
        assert(knots.take(n) =~= knots);
    } else {
        assert(knots.drop_last().take(n) =~= knots.take(n));
        watch_all_stops_at_failure(failure, loom_id, knots.drop_last(), n, ios);
    }
}

// ── Procedures ─────────────────────────────────────────────────────────

/// Append the next event of a list to the loom's log.
fn append_next<L: LoomLogPort>(
    log_port: &mut L,
    trace: &mut Trace,
    event: LoomEvent,
    Ghost(start): Ghost<Seq<LoomLogCall>>,
    Ghost(begun): Ghost<Seq<Act>>,
    Ghost(facts): Ghost<Seq<LoomFact>>,
    Ghost(answers): Ghost<Seq<Answer<()>>>,
) -> (r: (Result<(), PortError>, Ghost<Seq<Answer<()>>>))
    requires
        answers.len() < facts.len(),
        event@.fact == facts[answers.len() as int],
        clock::utc_time(event@.timestamp),
        log_all(facts.take(answers.len() as int), answers).result is Ok,
        old(log_port).calls() == start + log_all(facts.take(answers.len() as int), answers).log,
        old(trace).acts() == begun + log_all(facts.take(answers.len() as int), answers).acts,
    ensures
        r.1@.len() == answers.len() + 1,
        ({
            let steps = log_all(facts.take(answers.len() as int + 1), r.1@);
            &&& final(log_port).calls() == start + steps.log
            &&& final(trace).acts() == begun + steps.acts
            &&& steps.result == ports::done(r.0)
            &&& r.0 is Err ==> log_all(facts, r.1@) == steps
        }),
{
    let answer = trace.tell(log_port, event);
    let ghost more = answers.push(ports::done(answer));
    proof {
        let n = answers.len() as int;
        let before = log_all(facts.take(n), answers);
        let call = LoomLogCall::Append {
            fact: facts[n],
            stamped: true,
            answer: ports::done(answer),
        };
        assert(facts.take(n + 1).drop_last() =~= facts.take(n));
        log_all_reads_its_answers(facts.take(n), answers, more);
        assert((start + before.log).push(call) =~= start + (before.log + seq![call]));
        assert((begun + before.acts).push(Act::Log(call)) =~= begun + (before.acts + seq![
            Act::Log(call),
        ]));
        if answer is Err {
            log_all_stops_at_refusal(facts, n + 1, more);
        }
    }
    (answer, Ghost(more))
}

/// Open a loom's log and announce the loom there.
pub(crate) fn announce_loom<L: LoomLogPort>(
    log_port: &mut L,
    trace: &mut Trace,
    loom: &Loom,
    warnings: &Vec<String>,
) -> (r: (Result<(), PortError>, Ghost<(Answer<()>, Seq<Answer<()>>)>))
    ensures
        ({
            let steps = announce(loom@, text::texts(warnings@), r.1@.0, r.1@.1);
            &&& final(log_port).calls() == old(log_port).calls() + steps.log
            &&& final(trace).acts() == old(trace).acts() + steps.acts
            &&& steps.result == ports::done(r.0)
            &&& steps.source.len() == 0
            &&& steps.dirs.len() == 0
        }),
{
    let ghost facts = announcement(loom@, text::texts(warnings@));
    let ghost before = log_port.calls();
    let ghost earlier = trace.acts();
    let ghost mut answers: Seq<Answer<()>> = Seq::empty();
    proof {
        log_all_only_logs(facts, answers);
    }
    let opened = trace.open_log(log_port, &loom.id);
    let ghost given = ports::done(opened);
    let ghost begun = trace.acts();
    assert(begun =~= earlier + open_log(loom@.id, given).acts);
    if let Err(e) = opened {
        return (Err(e), Ghost((given, answers)));
    }
    let ghost start = log_port.calls();
    assert(start =~= before + open_log(loom@.id, given).log);
    assert(start + Seq::<LoomLogCall>::empty() =~= start);
    assert(begun + Seq::<Act>::empty() =~= begun);
    assert(facts.take(0) =~= Seq::empty());
    let n = loom.knots.len();
    for i in 0..n
        invariant
            n == loom.knots@.len(),
            facts == announcement(loom@, text::texts(warnings@)),
            answers.len() == i,
            log_all(facts.take(i as int), answers).result is Ok,
            log_port.calls() == start + log_all(facts.take(i as int), answers).log,
            trace.acts() == begun + log_all(facts.take(i as int), answers).acts,
            start == before + open_log(loom@.id, given).log,
            given is Ok,
            before == old(log_port).calls(),
            begun == earlier + open_log(loom@.id, given).acts,
            earlier == old(trace).acts(),
    {
        assert(facts[i as int] == registered_fact(loom@.id, loom@.knots[i as int].id));
        let (answer, Ghost(more)) = append_next(
            log_port,
            trace,
            LoomEvent::KnotRegistered {
                loom_id: loom.id.clone(),
                knot_id: loom.knots[i].id.clone(),
                timestamp: format_timestamp(),
            },
            Ghost(start),
            Ghost(begun),
            Ghost(facts),
            Ghost(answers),
        );
        proof {
            answers = more;
        }
        if let Err(e) = answer {
            proof {
                log_all_only_logs(facts, answers);
                let rest = log_all(facts, answers);
                let opening = open_log(loom@.id, given);
                assert(start + rest.log =~= before + (opening.log + rest.log));
                assert(begun + rest.acts =~= earlier + (opening.acts + rest.acts));
            }
            return (Err(e), Ghost((given, answers)));
        }
    }
    let m = warnings.len();
    for j in 0..m
        invariant
            n == loom.knots@.len(),
            m == warnings@.len(),
            facts == announcement(loom@, text::texts(warnings@)),
            answers.len() == n + j,
            log_all(facts.take(n + j), answers).result is Ok,
            log_port.calls() == start + log_all(facts.take(n + j), answers).log,
            trace.acts() == begun + log_all(facts.take(n + j), answers).acts,
            start == before + open_log(loom@.id, given).log,
            given is Ok,
            before == old(log_port).calls(),
            begun == earlier + open_log(loom@.id, given).acts,
            earlier == old(trace).acts(),
    {
        assert(facts[n + j] == warning_fact(loom@.id, text::texts(warnings@)[j as int]));
        let (answer, Ghost(more)) = append_next(
            log_port,
            trace,
            LoomEvent::KnotParseWarning {
                loom_id: loom.id.clone(),
                knot_file_name: String::new(),
                message: warnings[j].clone(),
                timestamp: format_timestamp(),
            },
            Ghost(start),
            Ghost(begun),
            Ghost(facts),
            Ghost(answers),
        );
        proof {
            answers = more;
        }
        if let Err(e) = answer {
            proof {
                log_all_only_logs(facts, answers);
                let rest = log_all(facts, answers);
                let opening = open_log(loom@.id, given);
                assert(start + rest.log =~= before + (opening.log + rest.log));
                assert(begun + rest.acts =~= earlier + (opening.acts + rest.acts));
            }
            return (Err(e), Ghost((given, answers)));
        }
    }
    assert(facts[n + m] == LoomFact::LoomStarted { loom_id: loom@.id });
    let (answer, Ghost(more)) = append_next(
        log_port,
        trace,
        LoomEvent::LoomStarted { loom_id: loom.id.clone(), timestamp: format_timestamp() },
        Ghost(start),
        Ghost(begun),
        Ghost(facts),
        Ghost(answers),
    );
    proof {
        assert(facts.take(n + m + 1) =~= facts);
        log_all_only_logs(facts, more);
        let rest = log_all(facts, more);
        let opening = open_log(loom@.id, given);
        assert(start + rest.log =~= before + (opening.log + rest.log));
        assert(begun + rest.acts =~= earlier + (opening.acts + rest.acts));
    }
    (answer, Ghost((given, more)))
}

proof fn log_all_only_logs(facts: Seq<LoomFact>, answers: Seq<Answer<()>>)
    ensures
        log_all(facts, answers).source.len() == 0,
        log_all(facts, answers).dirs.len() == 0,
    decreases facts.len(),
{
    if facts.len() > 0 {
        log_all_only_logs(facts.drop_last(), answers);
    }
}

fn about_dir(start: &str, strand_dir: &str, reason: &str) -> (message: String)
    ensures
        message@ == start@ + strand_dir@ + "': "@ + reason@,
{
    let mut message = start.to_string();
    message.append(strand_dir);
    message.append("': ");
    message.append(reason);
    message
}

/// See to it that a strand directory exists, then start the watcher.
pub(crate) fn ensure_strand_dir_and_watch<
    L: LoomLogPort,
    E: EventSource,
    D: Fn(&String) -> StrandDir,
>(
    log_port: &mut L,
    event_source: &mut E,
    ensure_dir: &mut Outside<String, StrandDir, D>,
    trace: &mut Trace,
    failure: WatchFailure,
    loom_id: &LoomId,
    knot_id: &KnotId,
    strand_dir: &String,
) -> (r: (Result<(), PortError>, Ghost<WatchIo>))
    requires
        old(ensure_dir).ready(),
    ensures
        ({
            let steps = ensure_and_watch(failure, loom_id@, knot_id@, strand_dir@, r.1@);
            &&& final(log_port).calls() == old(log_port).calls() + steps.log
            &&& final(event_source).calls() == old(event_source).calls() + steps.source
            &&& outside::asked(*old(ensure_dir), *final(ensure_dir), steps.dirs)
            &&& final(trace).acts() == old(trace).acts() + steps.acts
            &&& steps.result == ports::done(r.0)
        }),
{
    let ghost log = log_port.calls();
    let ghost source = event_source.calls();
    assert(log + Seq::<LoomLogCall>::empty() =~= log);
    assert(source + Seq::<SourceCall>::empty() =~= source);
    let ghost earlier = trace.acts();
    let dir = trace.ensure_dir(ensure_dir, strand_dir);
    let ghost mut io = WatchIo { dir, logged: Ok(()), watched: Ok(()) };
    let ghost seen = seq![(strand_dir@, dir)];
    let ghost mut acts = seq![Act::Dir(strand_dir@, dir)];
    assert(trace.acts() =~= earlier + acts);
    assert(acts + Seq::<Act>::empty() =~= acts);
    assert(seen + Seq::<(Seq<char>, StrandDir)>::empty() =~= seen);
    match dir {
        StrandDir::Failed(reason) => {
            let message = about_dir(
                "failed to create strand dir '",
                strand_dir.as_str(),
                reason.as_str(),
            );
            return (Err(failure.build(message)), Ghost(io));
        },
        StrandDir::Created => {
            let logged = trace.tell(
                log_port,
                LoomEvent::DirectoryCreated {
                    loom_id: loom_id.clone(),
                    knot_id: knot_id.clone(),
                    directory: strand_dir.clone(),
                    timestamp: format_timestamp(),
                },
            );
            proof {
                io = WatchIo { logged: ports::done(logged), ..io };
                let call = log_port.calls().last();
                acts = acts + seq![Act::Log(call)];
                assert(trace.acts() =~= earlier + acts);
            }
            if let Err(e) = logged {
                return (Err(e), Ghost(io));
            }
        },
        StrandDir::Existing => {},
    }
    trace.name_watch(event_source, strand_dir.as_str(), loom_id, knot_id);
    let watched = trace.watch(event_source, strand_dir.as_str());
    proof {
        io = WatchIo { watched: ports::done(watched), ..io };
        let next = start_watch(failure, loom_id@, knot_id@, strand_dir@, io.watched);
        assert(trace.acts() =~= earlier + (acts + next.acts));
    }
    match watched {
        Ok(_) => (Ok(()), Ghost(io)),
        Err(e) => {
            let message = about_dir(
                "failed to watch '",
                strand_dir.as_str(),
                e.display().as_str(),
            );
            (Err(failure.build(message)), Ghost(io))
        },
    }
}

/// Watch the strand directories of knots in order, up to the first failure.
pub(crate) fn watch_knots<L: LoomLogPort, E: EventSource, D: Fn(&String) -> StrandDir>(
    log_port: &mut L,
    event_source: &mut E,
    ensure_dir: &mut Outside<String, StrandDir, D>,
    trace: &mut Trace,
    failure: WatchFailure,
    loom_id: &LoomId,
    knots: &Vec<Knot>,
) -> (r: (Result<(), PortError>, Ghost<Seq<WatchIo>>))
    requires
        old(ensure_dir).ready(),
    ensures
        ({
            let steps = watch_all(failure, loom_id@, text::views(knots@), r.1@);
            &&& final(log_port).calls() == old(log_port).calls() + steps.log
            &&& final(event_source).calls() == old(event_source).calls() + steps.source
            &&& outside::asked(*old(ensure_dir), *final(ensure_dir), steps.dirs)
            &&& final(trace).acts() == old(trace).acts() + steps.acts
            &&& steps.result == ports::done(r.0)
        }),
{
    let ghost log = log_port.calls();
    let ghost source = event_source.calls();
    let ghost all = text::views(knots@);
    let ghost mut ios: Seq<WatchIo> = Seq::empty();
    assert(log + Seq::<LoomLogCall>::empty() =~= log);
    assert(source + Seq::<SourceCall>::empty() =~= source);
    assert(all.take(0) =~= Seq::empty());
    assert(trace.acts() + Seq::<Act>::empty() =~= trace.acts());
    proof {
        outside::nothing_asked(*ensure_dir);
    }
    let n = knots.len();
    for i in 0..n
        invariant
            ensure_dir.ready(),
            n == knots@.len(),
            all == text::views(knots@),
            log == old(log_port).calls(),
            source == old(event_source).calls(),
            ios.len() == i,
            ({
                let steps = watch_all(failure, loom_id@, all.take(i as int), ios);
                &&& log_port.calls() == log + steps.log
                &&& event_source.calls() == source + steps.source
                &&& outside::asked(*old(ensure_dir), *ensure_dir, steps.dirs)
                &&& trace.acts() == old(trace).acts() + steps.acts
                &&& steps.result is Ok
            }),
    {
        let knot = &knots[i];
        let ghost before = watch_all(failure, loom_id@, all.take(i as int), ios);
        let ghost dirs = *ensure_dir;
        let (answer, Ghost(io)) = ensure_strand_dir_and_watch(
            log_port,
            event_source,
            ensure_dir,
            trace,
            failure,
            loom_id,
            &knot.id,
            &knot.strand_dir,
        );
        let ghost more = ios.push(io);
        proof {
            let step = ensure_and_watch(failure, loom_id@, knot.id@, knot.strand_dir@, io);
            assert(all.take(i + 1).drop_last() =~= all.take(i as int));
            assert(all.take(i + 1).last() == knot@);
            watch_all_reads_its_answers(failure, loom_id@, all.take(i as int), ios, more);
            let after = watch_all(failure, loom_id@, all.take(i + 1), more);
            assert(after == before.follow(step));
            assert(log + (before.log + step.log) =~= (log + before.log) + step.log);
            assert(source + (before.source + step.source) =~= (source + before.source)
                + step.source);
            assert(old(trace).acts() + (before.acts + step.acts) =~= (old(trace).acts()
                + before.acts) + step.acts);
            outside::asked_in_order(
                *old(ensure_dir),
                dirs,
                *ensure_dir,
                before.dirs,
                step.dirs,
            );
            ios = more;
        }
        if let Err(e) = answer {
            proof {
                watch_all_stops_at_failure(failure, loom_id@, all, i + 1, ios);
            }
            return (Err(e), Ghost(ios));
        }
    }
    assert(all.take(n as int) =~= all);
    (Ok(()), Ghost(ios))
}

/// Register a loom: log events, store, and start watchers.
pub(crate) fn register_loom<L: LoomLogPort, E: EventSource, D: Fn(&String) -> StrandDir>(
    log_port: &mut L,
    store: &mut LoomStore,
    event_source: &mut E,
    ensure_dir: &mut Outside<String, StrandDir, D>,
    trace: &mut Trace,
    failure: WatchFailure,
    loom: &Loom,
    warnings: &Vec<String>,
) -> (r: (Result<(), PortError>, Ghost<RegisterIo>))
    requires
        old(ensure_dir).ready(),
    ensures
        ({
            let steps = register_steps(failure, loom@, text::texts(warnings@), r.1@);
            &&& final(log_port).calls() == old(log_port).calls() + steps.log
            &&& final(event_source).calls() == old(event_source).calls() + steps.source
            &&& outside::asked(*old(ensure_dir), *final(ensure_dir), steps.dirs)
            &&& final(trace).acts() == old(trace).acts() + steps.acts
            &&& steps.result == ports::done(r.0)
            &&& final(store)@ == register_store(
                old(store)@,
                loom@,
                text::texts(warnings@),
                r.1@,
            )
        }),
{
    let ghost log = log_port.calls();
    let ghost source = event_source.calls();
    assert(source + Seq::<SourceCall>::empty() =~= source);
    proof {
        outside::nothing_asked(*ensure_dir);
    }
    let (announced, Ghost(given)) = announce_loom(log_port, trace, loom, warnings);
    let ghost first = announce(loom@, text::texts(warnings@), given.0, given.1);
    if let Err(e) = announced {
        return (
            Err(e),
            Ghost(RegisterIo { opened: given.0, answers: given.1, watches: Seq::empty() }),
        );
    }
    store.register(loom.clone());
    let (watched, Ghost(watches)) = watch_knots(
        log_port,
        event_source,
        ensure_dir,
        trace,
        failure,
        &loom.id,
        &loom.knots,
    );
    proof {
        let next = watch_all(failure, loom@.id, loom@.knots, watches);
        assert(log + (first.log + next.log) =~= (log + first.log) + next.log);
        assert(first.source + next.source =~= next.source);
        assert(first.dirs + next.dirs =~= next.dirs);
        assert(old(trace).acts() + (first.acts + next.acts) =~= (old(trace).acts() + first.acts)
            + next.acts);
    }
    (watched, Ghost(RegisterIo { opened: given.0, answers: given.1, watches }))
}

// ── Laws ───────────────────────────────────────────────────────────────

/// The call appended the event, and the log took it.
pub open spec fn took(call: LoomLogCall, fact: LoomFact) -> bool {
    call matches LoomLogCall::Append { fact: told, answer, .. } && told == fact && answer is Ok
}

/// A loom that is registered without a failure is announced in full: its log
/// is opened, told of every knot and every warning, and told at the end that
/// the loom has started.
pub proof fn registered_looms_are_announced(
    loom: LoomView,
    warnings: Seq<Seq<char>>,
    opened: Answer<()>,
    answers: Seq<Answer<()>>,
)
    requires
        announce(loom, warnings, opened, answers).result is Ok,
    ensures
        ({
            let log = announce(loom, warnings, opened, answers).log;
            let facts = announcement(loom, warnings);
            &&& log.len() == 1 + facts.len()
            &&& log[0] == LoomLogCall::Open { loom_id: loom.id, answer: opened }
            &&& opened is Ok
            &&& forall|i: int| 0 <= i < facts.len() ==> took(log[i + 1], #[trigger] facts[i])
        }),
{
    let facts = announcement(loom, warnings);
    accepted_facts_are_logged(facts, answers);
    let log = announce(loom, warnings, opened, answers).log;
    let rest = log_all(facts, answers).log;
    assert forall|i: int| 0 <= i < facts.len() implies took(log[i + 1], #[trigger] facts[i]) by {
        assert(log[i + 1] == rest[i]);
    }
}

proof fn accepted_facts_are_logged(facts: Seq<LoomFact>, answers: Seq<Answer<()>>)
    requires
        log_all(facts, answers).result is Ok,
    ensures
        log_all(facts, answers).log.len() == facts.len(),
        forall|i: int|
            0 <= i < facts.len() ==> took(log_all(facts, answers).log[i], #[trigger] facts[i]),
    decreases facts.len(),
{
    if facts.len() > 0 {
        accepted_facts_are_logged(facts.drop_last(), answers);
        let before = log_all(facts.drop_last(), answers).log;
        let log = log_all(facts, answers).log;
        assert forall|i: int| 0 <= i < facts.len() implies took(log[i], #[trigger] facts[i]) by {
            if i < facts.len() - 1 {
                assert(log[i] == before[i]);
                assert(facts.drop_last()[i] == facts[i]);
            }
        }
    }
}

/// A strand directory that is watched without a failure was seen to first, and
/// its creation, where it was missing, was logged before the watch began.
pub proof fn directories_come_before_watches(
    failure: WatchFailure,
    loom_id: Seq<char>,
    knot_id: Seq<char>,
    strand_dir: Seq<char>,
    io: WatchIo,
)
    requires
        ensure_and_watch(failure, loom_id, knot_id, strand_dir, io).result is Ok,
    ensures
        ({
            let acts = ensure_and_watch(failure, loom_id, knot_id, strand_dir, io).acts;
            let n = acts.len() as int;
            &&& n == (if io.dir is Created {
                4int
            } else {
                3int
            })
            &&& acts[0] == Act::Dir(strand_dir, io.dir)
            &&& io.dir is Created ==> (acts[1] matches Act::Log(call) && took(
                call,
                LoomFact::DirectoryCreated { loom_id, knot_id, directory: strand_dir },
            ))
            &&& acts[n - 2] == Act::Source(
                SourceCall::SetLoomIds { path: strand_dir, loom_id, knot_id },
            )
            &&& acts[n - 1] == Act::Source(
                SourceCall::Watch { path: strand_dir, answer: io.watched },
            )
        }),
{
}

/// The calls name the knot's strand directory for the loom and the knot, and
/// then have it watched.
pub open spec fn watched(
    first: SourceCall,
    second: SourceCall,
    loom_id: Seq<char>,
    knot: KnotView,
) -> bool {
    &&& first == (SourceCall::SetLoomIds { path: knot.strand_dir, loom_id, knot_id: knot.id })
    &&& second matches SourceCall::Watch { path, answer } && path == knot.strand_dir && answer is Ok
}

/// Knots whose strand directories are watched without a failure have every one
/// of them watched, in order, each named for its loom and knot first.
pub proof fn watched_knots_are_watched_in_full(
    failure: WatchFailure,
    loom_id: Seq<char>,
    knots: Seq<KnotView>,
    ios: Seq<WatchIo>,
)
    requires
        watch_all(failure, loom_id, knots, ios).result is Ok,
    ensures
        ({
            let source = watch_all(failure, loom_id, knots, ios).source;
            &&& source.len() == 2 * knots.len()
            &&& forall|i: int|
                0 <= i < knots.len() ==> watched(
                    source[2 * i],
                    source[2 * i + 1],
                    loom_id,
                    #[trigger] knots[i],
                )
        }),
    decreases knots.len(),
{
    if knots.len() > 0 {
        watched_knots_are_watched_in_full(failure, loom_id, knots.drop_last(), ios);
        let before = watch_all(failure, loom_id, knots.drop_last(), ios).source;
        let source = watch_all(failure, loom_id, knots, ios).source;
        let last = knots.last();
        let io = ios[knots.len() - 1];
        let step = ensure_and_watch(failure, loom_id, last.id, last.strand_dir, io).source;
        assert(step =~= start_watch(
            failure,
            loom_id,
            last.id,
            last.strand_dir,
            io.watched,
        ).source);
        assert forall|i: int| 0 <= i < knots.len() implies watched(
            source[2 * i],
            source[2 * i + 1],
            loom_id,
            #[trigger] knots[i],
        ) by {
            if i < knots.len() - 1 {
                assert(knots.drop_last()[i] == knots[i]);
                assert(source[2 * i] == before[2 * i]);
                assert(source[2 * i + 1] == before[2 * i + 1]);
            }
        }
    }
}

/// What becomes of a strand directory decides the watch. One that could not be
/// created, one whose creation the log refused, and one that could not be
/// watched each end with their own error and nothing further; any other ends
/// well, named for the loom and the knot and watched.
pub proof fn directories_decide_the_watch(
    failure: WatchFailure,
    loom_id: Seq<char>,
    knot_id: Seq<char>,
    strand_dir: Seq<char>,
    io: WatchIo,
)
    ensures
        ({
            let steps = ensure_and_watch(failure, loom_id, knot_id, strand_dir, io);
            let error = |message: Seq<char>|
                match failure {
                    WatchFailure::Save => PortErrorView::LoomSaveFailed(message),
                    WatchFailure::Watch => PortErrorView::EventWatchFailed(message),
                };
            &&& steps.dirs == seq![(strand_dir, io.dir)]
            &&& match io.dir {
                StrandDir::Failed(reason) => {
                    &&& steps.log.len() == 0
                    &&& steps.source.len() == 0
                    &&& steps.result == Err::<(), PortErrorView>(
                        error("failed to create strand dir '"@ + strand_dir + "': "@ + reason@),
                    )
                },
                StrandDir::Created => steps.log == seq![
                    LoomLogCall::Append {
                        fact: LoomFact::DirectoryCreated {
                            loom_id,
                            knot_id,
                            directory: strand_dir,
                        },
                        stamped: true,
                        answer: io.logged,
                    },
                ],
                StrandDir::Existing => steps.log.len() == 0,
            }
            &&& io.dir is Created && io.logged is Err ==> steps.result == io.logged
                && steps.source.len() == 0
            &&& io.dir is Existing || (io.dir is Created && io.logged is Ok) ==> {
                &&& steps.source == seq![
                    SourceCall::SetLoomIds { path: strand_dir, loom_id, knot_id },
                    SourceCall::Watch { path: strand_dir, answer: io.watched },
                ]
                &&& match io.watched {
                    Ok(_) => steps.result is Ok,
                    Err(e) => steps.result == Err::<(), PortErrorView>(
                        error("failed to watch '"@ + strand_dir + "': "@ + e.display()),
                    ),
                }
            }
        }),
{
    let steps = ensure_and_watch(failure, loom_id, knot_id, strand_dir, io);
    assert(steps.dirs =~= seq![(strand_dir, io.dir)]);
    if io.dir is Created {
        assert(steps.log =~= seq![
            LoomLogCall::Append {
                fact: LoomFact::DirectoryCreated { loom_id, knot_id, directory: strand_dir },
                stamped: true,
                answer: io.logged,
            },
        ]);
    }
    if io.dir is Existing || (io.dir is Created && io.logged is Ok) {
        assert(steps.source =~= seq![
            SourceCall::SetLoomIds { path: strand_dir, loom_id, knot_id },
            SourceCall::Watch { path: strand_dir, answer: io.watched },
        ]);
    }
}

/// The log of a loom that is registered tells, in this order: that it was
/// opened, each knot of the loom in turn, each warning in turn, and that the
/// loom has started. It ends early only at a call that the log refuses, whose
/// error is the result.
pub proof fn announcements_are_in_order(
    loom: LoomView,
    warnings: Seq<Seq<char>>,
    opened: Answer<()>,
    answers: Seq<Answer<()>>,
    i: int,
)
    ensures
        ({
            let steps = announce(loom, warnings, opened, answers);
            let knots = loom.knots.len() as int;
            let all = knots + warnings.len() + 2;
            &&& 1 <= steps.log.len() <= all
            &&& steps.source.len() == 0
            &&& steps.dirs.len() == 0
            &&& steps.log[0] == (LoomLogCall::Open { loom_id: loom.id, answer: opened })
            &&& steps.result is Ok <==> steps.log.len() == all && forall|j: int|
                0 <= j < steps.log.len() ==> match #[trigger] steps.log[j] {
                    LoomLogCall::Open { answer, .. } => answer is Ok,
                    LoomLogCall::Append { answer, .. } => answer is Ok,
                    _ => false,
                }
            &&& 1 <= i < steps.log.len() ==> steps.log[i] == (LoomLogCall::Append {
                fact: if i <= knots {
                    LoomFact::KnotRegistered { loom_id: loom.id, knot_id: loom.knots[i - 1].id }
                } else if i <= knots + warnings.len() {
                    LoomFact::KnotParseWarning {
                        loom_id: loom.id,
                        knot_file_name: Seq::empty(),
                        message: warnings[i - 1 - knots],
                    }
                } else {
                    LoomFact::LoomStarted { loom_id: loom.id }
                },
                stamped: true,
                answer: answers[i - 1],
            })
            &&& steps.result is Err ==> match steps.log.last() {
                LoomLogCall::Open { answer, .. } => steps.result == answer,
                LoomLogCall::Append { answer, .. } => steps.result == answer,
                _ => false,
            }
        }),
{
    let facts = announcement(loom, warnings);
    let rest = log_all(facts, answers);
    let steps = announce(loom, warnings, opened, answers);
    facts_are_logged_in_turn(facts, answers);
    log_all_only_logs(facts, answers);
    if opened is Ok {
        assert(steps.log =~= seq![LoomLogCall::Open { loom_id: loom.id, answer: opened }]
            + rest.log);
        if 1 <= i < steps.log.len() {
            assert(steps.log[i] == rest.log[i - 1]);
        }
        if steps.result is Ok {
            assert forall|j: int| 0 <= j < steps.log.len() implies match #[trigger] steps.log[j] {
                LoomLogCall::Open { answer, .. } => answer is Ok,
                LoomLogCall::Append { answer, .. } => answer is Ok,
                _ => false,
            } by {
                if j > 0 {
                    assert(steps.log[j] == rest.log[j - 1]);
                }
            }
        } else {
            assert(steps.log.last() == rest.log.last());
            let last = steps.log.len() - 1;
            assert(steps.log[last] == rest.log[last - 1]);
        }
    } else {
        assert(steps.log[0] == LoomLogCall::Open { loom_id: loom.id, answer: opened });
    }
}

/// Facts are logged in turn, up to the first that the log refuses.
proof fn facts_are_logged_in_turn(facts: Seq<LoomFact>, answers: Seq<Answer<()>>)
    ensures
        ({
            let steps = log_all(facts, answers);
            &&& steps.log.len() <= facts.len()
            &&& forall|i: int|
                0 <= i < steps.log.len() ==> #[trigger] steps.log[i] == (LoomLogCall::Append {
                    fact: facts[i],
                    stamped: true,
                    answer: answers[i],
                })
            &&& steps.result is Ok ==> steps.log.len() == facts.len() && forall|i: int|
                0 <= i < facts.len() ==> (#[trigger] answers[i]) is Ok
            &&& steps.result is Err ==> steps.log.len() > 0 && steps.result
                == answers[steps.log.len() - 1]
        }),
    decreases facts.len(),
{
    if facts.len() > 0 {
        let rest = facts.drop_last();
        let n = rest.len() as int;
        facts_are_logged_in_turn(rest, answers);
        let before = log_all(rest, answers);
        let steps = log_all(facts, answers);
        if before.result is Ok {
            assert forall|i: int| 0 <= i < steps.log.len() implies #[trigger] steps.log[i] == (
            LoomLogCall::Append { fact: facts[i], stamped: true, answer: answers[i] }) by {
                if i < n {
                    assert(steps.log[i] == before.log[i]);
                    assert(rest[i] == facts[i]);
                }
            }
        } else {
            assert forall|i: int| 0 <= i < steps.log.len() implies #[trigger] steps.log[i] == (
            LoomLogCall::Append { fact: facts[i], stamped: true, answer: answers[i] }) by {
                assert(rest[i] == facts[i]);
            }
        }
    }
}

/// A loom is watched only once it is announced in full, and it is in the store
/// from then on, whatever becomes of its watches. A loom that could not be
/// announced is not stored, and nothing is watched for it.
pub proof fn announced_looms_are_stored(
    failure: WatchFailure,
    store: Map<Seq<char>, LoomView>,
    loom: LoomView,
    warnings: Seq<Seq<char>>,
    io: RegisterIo,
)
    ensures
        ({
            let steps = register_steps(failure, loom, warnings, io);
            let after = register_store(store, loom, warnings, io);
            let all = loom.knots.len() + warnings.len() + 2;
            &&& steps.source.len() > 0 ==> after == store.insert(loom.id, loom)
            &&& steps.dirs.len() > 0 ==> after == store.insert(loom.id, loom)
            &&& steps.result is Ok ==> after == store.insert(loom.id, loom)
            &&& announce(loom, warnings, io.opened, io.answers).result is Err ==> after == store
                && steps.source.len() == 0 && steps.dirs.len() == 0
            &&& announce(loom, warnings, io.opened, io.answers).result is Ok ==> after
                == store.insert(loom.id, loom)
        }),
{
    log_all_only_logs(announcement(loom, warnings), io.answers);
}

/// A loom that is announced has its knots watched in order up to the first that
/// cannot be: that one's error is the result, and no later directory is looked
/// at. When all can be, the registration succeeds.
pub proof fn failed_watches_end_registering(
    failure: WatchFailure,
    loom: LoomView,
    warnings: Seq<Seq<char>>,
    io: RegisterIo,
    i: int,
)
    requires
        announce(loom, warnings, io.opened, io.answers).result is Ok,
        0 <= i <= loom.knots.len(),
        forall|j: int|
            0 <= j < i ==> watch_succeeds(#[trigger] io.watches[j]),
        i < loom.knots.len() ==> !watch_succeeds(io.watches[i]),
    ensures
        ({
            let steps = register_steps(failure, loom, warnings, io);
            let error = |message: Seq<char>|
                match failure {
                    WatchFailure::Save => PortErrorView::LoomSaveFailed(message),
                    WatchFailure::Watch => PortErrorView::EventWatchFailed(message),
                };
            let dir = loom.knots[i].strand_dir;
            &&& i == loom.knots.len() ==> steps.result is Ok && steps.dirs.len() == i
            &&& i < loom.knots.len() ==> {
                &&& steps.dirs.len() == i + 1
                &&& match io.watches[i].dir {
                    StrandDir::Failed(reason) => steps.result == Err::<(), PortErrorView>(
                        error("failed to create strand dir '"@ + dir + "': "@ + reason@),
                    ),
                    _ => if io.watches[i].dir is Created && io.watches[i].logged is Err {
                        steps.result == io.watches[i].logged
                    } else {
                        steps.result == Err::<(), PortErrorView>(
                            error(
                                "failed to watch '"@ + dir + "': "@
                                    + io.watches[i].watched->Err_0.display(),
                            ),
                        )
                    },
                }
            }
        }),
{
    log_all_only_logs(announcement(loom, warnings), io.answers);
    watching_stops_at(failure, loom.id, loom.knots, io.watches, i);
}

/// Whether a strand directory comes to be watched.
pub open spec fn watch_succeeds(io: WatchIo) -> bool {
    &&& io.watched is Ok
    &&& match io.dir {
        StrandDir::Existing => true,
        StrandDir::Created => io.logged is Ok,
        StrandDir::Failed(_) => false,
    }
}

proof fn watching_stops_at(
    failure: WatchFailure,
    loom_id: Seq<char>,
    knots: Seq<KnotView>,
    ios: Seq<WatchIo>,
    i: int,
)
    requires
        0 <= i <= knots.len(),
        forall|j: int| 0 <= j < i ==> watch_succeeds(#[trigger] ios[j]),
        i < knots.len() ==> !watch_succeeds(ios[i]),
    ensures
        ({
            let steps = watch_all(failure, loom_id, knots, ios);
            &&& i == knots.len() ==> steps.result is Ok && steps.dirs.len() == i
            &&& i < knots.len() ==> {
                &&& steps.dirs.len() == i + 1
                &&& steps.result is Err
                &&& steps.result == ensure_and_watch(
                    failure,
                    loom_id,
                    knots[i].id,
                    knots[i].strand_dir,
                    ios[i],
                ).result
            }
        }),
    decreases knots.len(),
{
    if knots.len() > 0 {
        let rest = knots.drop_last();
        if i <= rest.len() {
            watching_stops_at(failure, loom_id, rest, ios, i);
        } else {
            watching_stops_at(failure, loom_id, rest, ios, i - 1);
        }
    }
}

} // verus!
