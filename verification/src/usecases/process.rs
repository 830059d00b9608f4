//! Use case: process a single strand event through the agent pipeline.
//!
//! The strand's content is checked, the knot's profile is loaded, the agent is
//! run, and what comes of it is written to the knot's tie-off file and to the
//! logs.

use crate::clock;
use crate::clock::format_timestamp;
use crate::entities::{
    AgentConfig, AgentConfigView, AgentProfile, AgentProfileView, Knot, KnotId, KnotView, LoomId,
    LoomView, StrandPath, TieOff, TieOffPath, TieOffStatus, TieOffView,
};
use crate::errors::{PortError, PortErrorView};
use crate::events;
use crate::events::{
    KnotEventType, LoomEvent, LoomFact, RigFact, RigLogEvent, StrandEvent, StrandEventView,
};
use crate::paths;
use crate::paths::{file_name_of, join_path};
use crate::outside;
use crate::outside::Outside;
use crate::ports;
use crate::ports::{
    AgentOutput, AgentProfileRepository, AgentRunner, Answer, GitCall,
    GitVersioningPort, LoomLogCall, LoomLogPort, ProfileCall, RigLogCall, RigLogPort, RunnerCall,
    SinkCall, TieOffSink,
};
use crate::session_resume;
use crate::session_resume::{execute_with_resume, FirstIo, PlanView, RetryIo, Run, Subject};
use crate::store::LoomStore;
use crate::text;
use crate::text::clone_texts;
use crate::tie_off_history;
use crate::tie_off_history::{extract_last_n, TieOffSection, TieOffSectionView};
use crate::time::TimeSpan;
use crate::trace::{Act, Trace};
use vstd::prelude::*;
use vstd::string::*;

verus! {

/// How many earlier sections about a deleted strand the agent is told of.
pub const HISTORY_LENGTH: usize = 5;

/// What a strand's file holds.
#[derive(Debug, Clone, Copy, PartialEq, Eq, Structural)]
pub enum StrandContent {
    /// Text.
    Text,
    /// Anything else.
    Binary,
    /// The file is not there. Some editors leave such traces: their temporary
    /// files are known by their names.
    Missing { known_temp: bool },
    /// The file is there but cannot be read.
    Unreadable,
}

// ── Effects ────────────────────────────────────────────────────────────

/// What a procedure did on each port, in order there, and how it ended.
pub struct Effects {
    pub log: Seq<LoomLogCall>,
    pub runner: Seq<RunnerCall>,
    pub sink: Seq<SinkCall>,
    pub profiles: Seq<ProfileCall>,
    pub rig: Seq<RigLogCall>,
    pub git: Seq<GitCall>,
    /// The strands that were looked at, and what they held.
    pub inspected: Seq<(Seq<char>, StrandContent)>,
    /// The waits, and the times they ended at.
    pub pauses: Seq<(TimeSpan, TimeSpan)>,
    /// All of these, in the order in which they happened.
    pub acts: Seq<Act>,
    pub result: Answer<()>,
}

impl Effects {
    /// Nothing but a result.
    pub open spec fn only(result: Answer<()>) -> Effects {
        Effects {
            log: Seq::empty(),
            runner: Seq::empty(),
            sink: Seq::empty(),
            profiles: Seq::empty(),
            rig: Seq::empty(),
            git: Seq::empty(),
            inspected: Seq::empty(),
            pauses: Seq::empty(),
            acts: Seq::empty(),
            result,
        }
    }

    /// These effects, and further ones unless these failed.
    pub open spec fn follow(self, next: Effects) -> Effects {
        if self.result is Err {
            self
        } else {
            Effects {
                log: self.log + next.log,
                runner: self.runner + next.runner,
                sink: self.sink + next.sink,
                profiles: self.profiles + next.profiles,
                rig: self.rig + next.rig,
                git: self.git + next.git,
                inspected: self.inspected + next.inspected,
                pauses: self.pauses + next.pauses,
                acts: self.acts + next.acts,
                result: next.result,
            }
        }
    }

    /// The same effects, whatever the result.
    pub open spec fn whatever(self) -> Effects {
        Effects { result: Ok(()), ..self }
    }
}

/// Append an event to the loom's log.
pub open spec fn log_step(fact: LoomFact, answer: Answer<()>) -> Effects {
    let call = LoomLogCall::Append { fact, stamped: true, answer };
    Effects { log: seq![call], acts: seq![Act::Log(call)], ..Effects::only(answer) }
}

/// Append to a tie-off file.
pub open spec fn sink_step(tie_off: TieOffView, answer: Answer<()>) -> Effects {
    let call = SinkCall::Append { tie_off, answer };
    Effects { sink: seq![call], acts: seq![Act::Sink(call)], ..Effects::only(answer) }
}

/// Append an event to the rig's log.
pub open spec fn rig_step(fact: RigFact, answer: Answer<()>) -> Effects {
    let call = RigLogCall::Append { fact, stamped: true, answer };
    Effects { rig: seq![call], acts: seq![Act::Rig(call)], ..Effects::only(answer) }
}

/// Ask for a profile.
pub open spec fn profile_step(name: Seq<char>, answer: Answer<Option<AgentProfileView>>) -> Effects {
    let call = ProfileCall::Get { name, answer };
    Effects { profiles: seq![call], acts: seq![Act::Profile(call)], ..Effects::only(Ok(())) }
}

// ── Jobs ───────────────────────────────────────────────────────────────

/// What is to be processed: a strand event, for a knot of a loom.
pub struct Job {
    pub loom_id: Seq<char>,
    pub knot: KnotView,
    pub strand_path: Seq<char>,
    pub kind: KnotEventType,
    pub tie_off_path: Seq<char>,
}

/// What the outside answers around a job.
pub struct ProcessIo {
    pub content: StrandContent,
    pub set_aside: Answer<()>,
    pub processing: Answer<()>,
    pub profile: Answer<Option<AgentProfileView>>,
    pub again: Answer<Option<AgentProfileView>>,
    pub history: Answer<Seq<char>>,
    pub start: TimeSpan,
    pub first: FirstIo,
    pub ios: Seq<RetryIo>,
    pub tie_off: Answer<()>,
    pub rig: Answer<()>,
    pub knot: Answer<()>,
    pub strand: Answer<()>,
    pub commit: Answer<()>,
}

/// Where a knot's tie-off file stands: one file per knot, below the rig.
pub open spec fn tie_off_path(rig_dir: Seq<char>, loom_id: Seq<char>, knot_id: Seq<char>) -> Seq<
    char,
> {
    paths::join(
        paths::join(paths::join(paths::join(rig_dir, "tie-offs"@), loom_id), knot_id),
        knot_id + "-tie-off.md"@,
    )
}

// ── Content ────────────────────────────────────────────────────────────

/// Whether a strand of this content is processed: text is, and so is a file
/// that cannot be read.
pub open spec fn goes_on(content: StrandContent) -> bool {
    content is Text || content is Unreadable
}

/// Look at a strand, and log one that is set aside. A known temporary file is
/// set aside in silence.
pub open spec fn look(job: Job, io: ProcessIo) -> Effects {
    let seen = Effects {
        inspected: seq![(job.strand_path, io.content)],
        acts: seq![Act::Look(job.strand_path, io.content)],
        ..Effects::only(Ok(()))
    };
    match io.content {
        StrandContent::Binary => seen.follow(
            log_step(
                LoomFact::StrandIgnored {
                    loom_id: job.loom_id,
                    knot_id: job.knot.id,
                    strand_path: job.strand_path,
                    reason: "binary file"@,
                },
                io.set_aside,
            ),
        ),
        StrandContent::Missing { known_temp } => if known_temp {
            seen
        } else {
            seen.follow(
                log_step(
                    LoomFact::StrandSkipped {
                        loom_id: job.loom_id,
                        knot_id: job.knot.id,
                        strand_path: job.strand_path,
                        reason: "missing file (unknown pattern)"@,
                    },
                    io.set_aside,
                ),
            )
        },
        _ => seen,
    }
}

// ── Profiles ───────────────────────────────────────────────────────────

/// The profile that was found, or the error where there is none.
pub open spec fn found_profile(name: Seq<char>, answer: Answer<Option<AgentProfileView>>) -> Answer<
    AgentProfileView,
> {
    match answer {
        Err(e) => Err(PortErrorView::ProfileNotFound(e.display())),
        Ok(None) => Err(PortErrorView::ProfileNotFound(name)),
        Ok(Some(profile)) => Ok(profile),
    }
}

/// The agent configuration of a knot that runs with a profile.
pub open spec fn config_for(knot: KnotView, profile: AgentProfileView) -> AgentConfigView {
    AgentConfigView {
        goal: knot.instructions,
        provider: profile.provider,
        model: profile.model,
        tools: profile.tools,
        extra_args: Seq::empty(),
        thinking_level: None,
        ctx_wrap_up_limit: None,
    }
}

/// The session timeout that a profile sets.
pub open spec fn profile_timeout(profile: AgentProfileView) -> Option<TimeSpan> {
    match profile.timeout {
        Some(secs) => Some(TimeSpan { nanos: (secs * crate::time::NANOS_PER_SEC) as u128 }),
        None => None,
    }
}

// ── Prompts ────────────────────────────────────────────────────────────

/// What the agent is told of one earlier section.
pub open spec fn section_text(section: TieOffSectionView) -> Seq<char> {
    "## "@ + section.knot_name + " triggered by "@ + section.event_type + " "@
        + section.strand_path + "\nTimestamp: "@ + section.timestamp + "\n"@ + (
    if section.body.len() == 0 {
        Seq::empty()
    } else {
        section.body + "\n\n"@
    })
}

/// What the agent is told of earlier sections.
pub open spec fn sections_text(sections: Seq<TieOffSectionView>) -> Seq<char>
    decreases sections.len(),
{
    if sections.len() == 0 {
        Seq::empty()
    } else {
        sections_text(sections.drop_last()) + section_text(sections.last())
    }
}

/// What the agent is told of a deleted strand's history, where there is one.
pub open spec fn history_text(strand_path: Seq<char>, sections: Seq<TieOffSectionView>) -> Seq<
    char,
> {
    if sections.len() == 0 {
        Seq::empty()
    } else {
        "\n\nStrand: "@ + text::text_or_empty(paths::file_name(strand_path))
            + "\nPrevious processing history (last 5 entries):\n\n"@ + sections_text(sections)
    }
}

/// The prompt for a job: the knot's instructions. For a deleted strand a
/// notice follows, and the history that the tie-off file holds.
pub open spec fn prompt_for(job: Job, history: Answer<Seq<char>>) -> Seq<char> {
    if job.kind is Deleted {
        let content = match history {
            Ok(content) => content,
            Err(_) => Seq::empty(),
        };
        let sections = tie_off_history::last_of(
            tie_off_history::about(tie_off_history::sections(content), job.strand_path),
            HISTORY_LENGTH as nat,
        );
        job.knot.instructions + "\n\n"@
            + "This file was deleted. There may be git history to help understand the file scope if you need to rectify downstream references due to this deletion."@
            + history_text(job.strand_path, sections)
    } else {
        job.knot.instructions
    }
}

// ── Runs ───────────────────────────────────────────────────────────────

/// What stays the same over the attempts of a job's run.
pub open spec fn plan_for(
    job: Job,
    profile: AgentProfileView,
    timeout: Option<TimeSpan>,
    delay: TimeSpan,
) -> PlanView {
    PlanView {
        subject: Subject {
            loom_id: job.loom_id,
            knot_id: job.knot.id,
            strand_path: job.strand_path,
        },
        strand_file_ref: if job.kind is Deleted {
            None
        } else {
            Some(job.strand_path)
        },
        profile_prompt: profile.profile_prompt,
        event_type: events::kind_label(job.kind),
        knot_name: Some(job.knot.id),
        budget: timeout,
        delay,
        start: session_resume::no_time(),
    }
}

/// The tie-off of a job.
pub open spec fn tie_off_of(job: Job, content: Seq<char>, status: TieOffStatus) -> TieOffView {
    TieOffView {
        content,
        path: job.tie_off_path,
        status,
        knot_name: Some(job.knot.id),
        event_type: Some(events::kind_label(job.kind)),
        strand_path: Some(job.strand_path),
        timestamp: None,
    }
}

/// The knot failed.
pub open spec fn failed_fact(job: Job, error: Seq<char>) -> LoomFact {
    LoomFact::KnotFailed {
        loom_id: job.loom_id,
        knot_id: job.knot.id,
        strand_path: job.strand_path,
        error,
    }
}

/// The strand has been processed.
pub open spec fn processed_fact(job: Job, error: Option<Seq<char>>) -> LoomFact {
    LoomFact::StrandProcessed { loom_id: job.loom_id, strand_path: job.strand_path, error }
}

/// The tie-off of a job that failed.
pub open spec fn failure_of(job: Job, error: Seq<char>) -> TieOffView {
    tie_off_of(job, "Processing failed: "@ + error, TieOffStatus::Failed)
}

/// Give up on a job whose profile is missing: the tie-off and the log tell of
/// it, as far as they take it, and the error is the result.
pub open spec fn give_up(job: Job, error: PortErrorView, io: ProcessIo) -> Effects {
    let message = error.display();
    sink_step(failure_of(job, message), io.tie_off).whatever().follow(
        log_step(failed_fact(job, message), io.knot).whatever(),
    ).follow(
        log_step(processed_fact(job, Some(message)), io.strand).whatever(),
    ).follow(Effects::only(Err(error)))
}

/// Commit a job's work, where the knot asks for it. What git answers is not
/// looked at.
pub open spec fn commit_step(job: Job, content: Seq<char>, answer: Answer<()>) -> Effects {
    if job.knot.git_versioned {
        let call = GitCall::Commit {
            loom_id: job.loom_id,
            knot_id: job.knot.id,
            strand_path: job.strand_path,
            event_type: events::kind_label(job.kind),
            tie_off_content: content,
            answer,
        };
        Effects { git: seq![call], acts: seq![Act::Git(call)], ..Effects::only(Ok(())) }
    } else {
        Effects::only(Ok(()))
    }
}

/// Close a job whose run succeeded: write the tie-off, log the completion, and
/// commit last, so that the commit holds what was written.
pub open spec fn complete(job: Job, content: Seq<char>, io: ProcessIo) -> Effects {
    sink_step(tie_off_of(job, content, TieOffStatus::Produced), io.tie_off).follow(
        log_step(
            LoomFact::KnotCompleted {
                loom_id: job.loom_id,
                knot_id: job.knot.id,
                strand_path: job.strand_path,
                tie_off_path: job.tie_off_path,
            },
            io.knot,
        ),
    ).follow(log_step(processed_fact(job, None), io.strand)).follow(
        commit_step(job, content, io.commit),
    )
}

/// Report why a run failed: a timeout to the rig's log, with the tie-off file
/// left as it is, and any other error to the tie-off file. What either answers
/// is not looked at.
pub open spec fn report(job: Job, error: PortErrorView, io: ProcessIo) -> Effects {
    if error is Timeout {
        rig_step(
            RigFact::TimeoutExceeded {
                loom_id: job.loom_id,
                knot_id: job.knot.id,
                strand_path: job.strand_path,
                error: error.display(),
            },
            io.rig,
        ).whatever()
    } else {
        sink_step(failure_of(job, error.display()), io.tie_off).whatever()
    }
}

/// Close a job whose run failed: report why, and log the failure. That is no
/// failure of the processing itself.
pub open spec fn fail(job: Job, error: PortErrorView, io: ProcessIo) -> Effects {
    report(job, error, io).follow(log_step(failed_fact(job, error.display()), io.knot)).follow(
        log_step(processed_fact(job, Some(error.display())), io.strand),
    )
}

/// The effects of a run.
pub open spec fn run_effects(run: Run) -> Effects {
    Effects {
        log: run.log,
        runner: run.calls,
        pauses: run.pauses,
        acts: run.acts,
        ..Effects::only(Ok(()))
    }
}

/// Run the agent for a job, and close the job.
pub open spec fn run_job(
    job: Job,
    config: AgentConfigView,
    profile: AgentProfileView,
    timeout: Option<TimeSpan>,
    delay: TimeSpan,
    io: ProcessIo,
) -> Effects {
    let run = session_resume::run_from(
        io.start,
        plan_for(job, profile, timeout, delay),
        config,
        prompt_for(job, io.history),
        None,
        io.first,
        io.ios,
    );
    run_effects(run).follow(
        match run.result {
            Ok(output) => complete(job, output.stdout, io),
            Err(error) => fail(job, error, io),
        },
    )
}

/// Read the tie-off file of a deleted strand's knot.
pub open spec fn read_history(job: Job, io: ProcessIo) -> Effects {
    if job.kind is Deleted {
        let call = SinkCall::ReadContent { path: job.tie_off_path, answer: io.history };
        Effects { sink: seq![call], acts: seq![Act::Sink(call)], ..Effects::only(Ok(())) }
    } else {
        Effects::only(Ok(()))
    }
}

/// Process a job whose strand is in order.
pub open spec fn process_job(job: Job, delay: TimeSpan, io: ProcessIo) -> Effects {
    let name = job.knot.agent_profile_ref;
    log_step(
        LoomFact::KnotProcessing {
            loom_id: job.loom_id,
            knot_id: job.knot.id,
            strand_path: job.strand_path,
        },
        io.processing,
    ).follow(profile_step(name, io.profile)).follow(
        match found_profile(name, io.profile) {
            Err(error) => give_up(job, error, io),
            Ok(settings) => profile_step(name, io.again).follow(
                match found_profile(name, io.again) {
                    Err(error) => Effects::only(Err(error)),
                    Ok(profile) => read_history(job, io).follow(
                        run_job(
                            job,
                            config_for(job.knot, settings),
                            profile,
                            profile_timeout(settings),
                            delay,
                            io,
                        ),
                    ),
                },
            ),
        },
    )
}

/// Process a strand event.
pub open spec fn process(
    store: Map<Seq<char>, LoomView>,
    rig_dir: Seq<char>,
    delay: TimeSpan,
    event: StrandEventView,
    io: ProcessIo,
) -> Effects {
    if !store.contains_key(event.loom_id) {
        Effects::only(Err(PortErrorView::LoomNotFound(event.loom_id)))
    } else {
        let loom = store[event.loom_id];
        match loom.position(event.knot_id) {
            None => Effects::only(
                Err(
                    PortErrorView::KnotStatusDeriveFailed(
                        "knot '"@ + event.knot_id + "' not found in loom '"@ + event.loom_id
                            + "'"@,
                    ),
                ),
            ),
            Some(i) => {
                let job = Job {
                    loom_id: event.loom_id,
                    knot: loom.knots[i],
                    strand_path: event.strand_path,
                    kind: event.kind,
                    tie_off_path: tie_off_path(rig_dir, event.loom_id, event.knot_id),
                };
                if event.kind is Deleted {
                    process_job(job, delay, io)
                } else if goes_on(io.content) {
                    look(job, io).follow(process_job(job, delay, io))
                } else {
                    look(job, io)
                }
            },
        }
    }
}

// ── The use case ───────────────────────────────────────────────────────

/// Use case: process a single strand event through the agent pipeline.
pub struct ProcessStrand<
    L: LoomLogPort,
    A: AgentRunner,
    T: TieOffSink,
    P: AgentProfileRepository,
    G: RigLogPort,
    V: GitVersioningPort,
    I: Fn(&StrandPath) -> StrandContent,
    C: Fn(&TimeSpan) -> TimeSpan,
> {
    pub store: LoomStore,
    pub log_port: L,
    pub agent_runner: A,
    pub tie_off_sink: T,
    /// Rig directory: the tie-off files are below it.
    pub rig_dir: String,
    pub profile_repo: P,
    pub rig_log: G,
    pub git_versioning_port: V,
    /// Looks at a strand's file.
    pub inspect: Outside<StrandPath, StrandContent, I>,
    /// Waits for a span, and says what time it is then.
    pub clock: Outside<TimeSpan, TimeSpan, C>,
    /// The delay between attempts that is set for this process, if one is.
    pub delay_millis: Option<u64>,
    /// The calls on all the ports, in one order.
    pub trace: Trace,
}

/// The effects have taken place, and nothing else.
pub open spec fn took_place<
    L: LoomLogPort,
    A: AgentRunner,
    T: TieOffSink,
    P: AgentProfileRepository,
    G: RigLogPort,
    V: GitVersioningPort,
    I: Fn(&StrandPath) -> StrandContent,
    C: Fn(&TimeSpan) -> TimeSpan,
>(
    before: ProcessStrand<L, A, T, P, G, V, I, C>,
    after: ProcessStrand<L, A, T, P, G, V, I, C>,
    effects: Effects,
) -> bool {
    &&& after.log_port.calls() == before.log_port.calls() + effects.log
    &&& after.agent_runner.calls() == before.agent_runner.calls() + effects.runner
    &&& after.tie_off_sink.calls() == before.tie_off_sink.calls() + effects.sink
    &&& after.profile_repo.calls() == before.profile_repo.calls() + effects.profiles
    &&& after.rig_log.calls() == before.rig_log.calls() + effects.rig
    &&& after.git_versioning_port.calls() == before.git_versioning_port.calls() + effects.git
    &&& outside::asked(before.inspect, after.inspect, effects.inspected)
    &&& outside::asked(before.clock, after.clock, effects.pauses)
    &&& after.trace.acts() == before.trace.acts() + effects.acts
    &&& after.store == before.store
    &&& after.rig_dir == before.rig_dir
    &&& after.delay_millis == before.delay_millis
}

proof fn nothing_took_place<
    L: LoomLogPort,
    A: AgentRunner,
    T: TieOffSink,
    P: AgentProfileRepository,
    G: RigLogPort,
    V: GitVersioningPort,
    I: Fn(&StrandPath) -> StrandContent,
    C: Fn(&TimeSpan) -> TimeSpan,
>(
    it: ProcessStrand<L, A, T, P, G, V, I, C>,
    result: Answer<()>,
)
    ensures
        took_place(it, it, Effects::only(result)),
{
    assert(it.log_port.calls() + Seq::<LoomLogCall>::empty() =~= it.log_port.calls());
    assert(it.agent_runner.calls() + Seq::<RunnerCall>::empty() =~= it.agent_runner.calls());
    assert(it.tie_off_sink.calls() + Seq::<SinkCall>::empty() =~= it.tie_off_sink.calls());
    assert(it.profile_repo.calls() + Seq::<ProfileCall>::empty() =~= it.profile_repo.calls());
    assert(it.rig_log.calls() + Seq::<RigLogCall>::empty() =~= it.rig_log.calls());
    assert(it.git_versioning_port.calls() + Seq::<GitCall>::empty()
        =~= it.git_versioning_port.calls());
    outside::nothing_asked(it.inspect);
    outside::nothing_asked(it.clock);
    assert(it.trace.acts() + Seq::<Act>::empty() =~= it.trace.acts());
}

proof fn took_place_in_order<
    L: LoomLogPort,
    A: AgentRunner,
    T: TieOffSink,
    P: AgentProfileRepository,
    G: RigLogPort,
    V: GitVersioningPort,
    I: Fn(&StrandPath) -> StrandContent,
    C: Fn(&TimeSpan) -> TimeSpan,
>(
    before: ProcessStrand<L, A, T, P, G, V, I, C>,
    middle: ProcessStrand<L, A, T, P, G, V, I, C>,
    after: ProcessStrand<L, A, T, P, G, V, I, C>,
    first: Effects,
    second: Effects,
)
    requires
        took_place(before, middle, first),
        took_place(middle, after, second),
        first.result is Ok,
    ensures
        took_place(before, after, first.follow(second)),
{
    let all = first.follow(second);
    assert(before.log_port.calls() + all.log =~= (before.log_port.calls() + first.log)
        + second.log);
    assert(before.agent_runner.calls() + all.runner =~= (before.agent_runner.calls()
        + first.runner) + second.runner);
    assert(before.tie_off_sink.calls() + all.sink =~= (before.tie_off_sink.calls() + first.sink)
        + second.sink);
    assert(before.profile_repo.calls() + all.profiles =~= (before.profile_repo.calls()
        + first.profiles) + second.profiles);
    assert(before.rig_log.calls() + all.rig =~= (before.rig_log.calls() + first.rig)
        + second.rig);
    assert(before.git_versioning_port.calls() + all.git =~= (before.git_versioning_port.calls()
        + first.git) + second.git);
    outside::asked_in_order(
        before.inspect,
        middle.inspect,
        after.inspect,
        first.inspected,
        second.inspected,
    );
    outside::asked_in_order(
        before.clock,
        middle.clock,
        after.clock,
        first.pauses,
        second.pauses,
    );
    assert(before.trace.acts() + all.acts =~= (before.trace.acts() + first.acts) + second.acts);
}

/// What is to be processed.
struct JobData {
    loom_id: LoomId,
    knot: Knot,
    strand_path: StrandPath,
    kind: KnotEventType,
    tie_off_path: TieOffPath,
}

impl JobData {
    spec fn job(&self) -> Job {
        Job {
            loom_id: self.loom_id@,
            knot: self.knot@,
            strand_path: self.strand_path@,
            kind: self.kind,
            tie_off_path: self.tie_off_path@,
        }
    }

    /// The job's tie-off.
    fn tie_off(&self, content: String, status: TieOffStatus) -> (tie_off: TieOff)
        ensures
            tie_off@ == tie_off_of(self.job(), content@, status),
    {
        TieOff {
            content,
            path: self.tie_off_path.clone(),
            status,
            knot_name: Some(self.knot.id.0.clone()),
            event_type: Some(self.kind.label()),
            strand_path: Some(self.strand_path.0.clone()),
            timestamp: None,
        }
    }

    /// The tie-off of a job that failed.
    fn failure(&self, error: &str) -> (tie_off: TieOff)
        ensures
            tie_off@ == failure_of(self.job(), error@),
    {
        let mut content = "Processing failed: ".to_string();
        content.append(error);
        self.tie_off(content, TieOffStatus::Failed)
    }

    /// The event of a knot that failed.
    fn failed_event(&self, error: &String) -> (event: LoomEvent)
        ensures
            event@.fact == failed_fact(self.job(), error@),
            clock::utc_time(event@.timestamp),
    {
        LoomEvent::KnotFailed {
            loom_id: self.loom_id.clone(),
            knot_id: self.knot.id.clone(),
            strand_path: self.strand_path.clone(),
            error: error.clone(),
            timestamp: format_timestamp(),
        }
    }

    /// The event of a strand that has been processed.
    fn processed_event(&self, error: Option<String>) -> (event: LoomEvent)
        ensures
            event@.fact == processed_fact(self.job(), text::opt_text(error)),
            clock::utc_time(event@.timestamp),
    {
        LoomEvent::StrandProcessed {
            loom_id: self.loom_id.clone(),
            strand_path: self.strand_path.clone(),
            error,
            timestamp: format_timestamp(),
        }
    }
}

/// Write what the agent is told of one earlier section.
fn render_section(section: &TieOffSection) -> (text: String)
    ensures
        text@ == section_text(section@),
{
    let mut text = "## ".to_string();
    text.append(section.knot_name.as_str());
    text.append(" triggered by ");
    text.append(section.event_type.as_str());
    text.append(" ");
    text.append(section.strand_path.as_str());
    text.append("\nTimestamp: ");
    text.append(section.timestamp.as_str());
    text.append("\n");
    let ghost head = text@;
    if section.body.as_str().unicode_len() > 0 {
        let mut body = section.body.clone();
        body.append("\n\n");
        text.append(body.as_str());
    } else {
        assert(head + Seq::<char>::empty() =~= head);
    }
    text
}

/// Write the prompt for a deleted strand.
fn deletion_prompt(instructions: &str, strand_path: &StrandPath, content: &str) -> (prompt: String)
    ensures
        prompt@ == instructions@ + "\n\n"@
            + "This file was deleted. There may be git history to help understand the file scope if you need to rectify downstream references due to this deletion."@
            + history_text(
            strand_path@,
            tie_off_history::last_of(
                tie_off_history::about(tie_off_history::sections(content@), strand_path@),
                HISTORY_LENGTH as nat,
            ),
        ),
{
    let mut prompt = instructions.to_string();
    prompt.append("\n\n");
    prompt.append(
        "This file was deleted. There may be git history to help understand the file scope if you need to rectify downstream references due to this deletion.",
    );
    let sections = extract_last_n(content, strand_path.0.as_str(), HISTORY_LENGTH);
    let ghost views = text::views(sections@);
    let ghost notice = prompt@;
    if sections.len() == 0 {
        assert(notice + Seq::<char>::empty() =~= notice);
        return prompt;
    }
    let mut history = "\n\nStrand: ".to_string();
    match file_name_of(strand_path.0.as_str()) {
        Some(name) => {
            history.append(name.as_str());
        },
        None => {
            assert(history@ + Seq::<char>::empty() =~= history@);
        },
    }
    history.append("\nPrevious processing history (last 5 entries):\n\n");
    let mut listed = String::new();
    assert(views.take(0) =~= Seq::empty());
    for i in 0..sections.len()
        invariant
            views == text::views(sections@),
            listed@ == sections_text(views.take(i as int)),
    {
        listed.append(render_section(&sections[i]).as_str());
        assert(views.take(i + 1).drop_last() =~= views.take(i as int));
        assert(views.take(i + 1).last() == sections@[i as int]@);
    }
    assert(views.take(sections@.len() as int) =~= views);
    history.append(listed.as_str());
    prompt.append(history.as_str());
    prompt
}

impl<
    L: LoomLogPort,
    A: AgentRunner,
    T: TieOffSink,
    P: AgentProfileRepository,
    G: RigLogPort,
    V: GitVersioningPort,
    I: Fn(&StrandPath) -> StrandContent,
    C: Fn(&TimeSpan) -> TimeSpan,
> ProcessStrand<L, A, T, P, G, V, I, C> {
    /// Create a new `ProcessStrand` use case.
    pub fn new(
        store: LoomStore,
        log_port: L,
        agent_runner: A,
        tie_off_sink: T,
        rig_dir: String,
        profile_repo: P,
        rig_log: G,
        git_versioning_port: V,
        inspect: I,
        clock: C,
        delay_millis: Option<u64>,
    ) -> (use_case: Self)
        ensures
            use_case.store == store,
            use_case.log_port == log_port,
            use_case.agent_runner == agent_runner,
            use_case.tie_off_sink == tie_off_sink,
            use_case.rig_dir == rig_dir,
            use_case.profile_repo == profile_repo,
            use_case.rig_log == rig_log,
            use_case.git_versioning_port == git_versioning_port,
            use_case.inspect.source() == inspect,
            use_case.inspect.calls() == Seq::<(Seq<char>, StrandContent)>::empty(),
            use_case.clock.source() == clock,
            use_case.clock.calls() == Seq::<(TimeSpan, TimeSpan)>::empty(),
            use_case.delay_millis == delay_millis,
            use_case.trace.acts() == Seq::<Act>::empty(),
    {
        ProcessStrand {
            store,
            log_port,
            agent_runner,
            tie_off_sink,
            rig_dir,
            profile_repo,
            rig_log,
            git_versioning_port,
            inspect: Outside::new(inspect),
            clock: Outside::new(clock),
            delay_millis,
            trace: Trace::new(),
        }
    }

    /// Load a profile.
    fn load_profile(&mut self, name: &String) -> (r: (
        Result<AgentProfile, PortError>,
        Ghost<Answer<Option<AgentProfileView>>>,
    ))
        ensures
            took_place(*old(self), *final(self), profile_step(name@, r.1@)),
            ports::answered(r.0) == found_profile(name@, r.1@),
    {
        proof {
            nothing_took_place(*self, Ok(()));
        }
        let answer = self.trace.find_profile(&mut self.profile_repo, name.as_str());
        let ghost given = ports::answered_opt(answer);
        let ghost step = profile_step(name@, given);
        assert(self.profile_repo.calls() =~= old(self).profile_repo.calls() + step.profiles);
        assert(self.trace.acts() =~= old(self).trace.acts() + step.acts);
        match answer {
            Err(e) => (Err(PortError::ProfileNotFound(e.display())), Ghost(given)),
            Ok(None) => (Err(PortError::ProfileNotFound(name.clone())), Ghost(given)),
            Ok(Some(profile)) => (Ok(profile), Ghost(given)),
        }
    }

    /// Resolve the effective `AgentConfig` for a knot and the profile's
    /// session timeout.
    ///
    /// The profile's prompt is not part of the configuration: it reaches the
    /// agent on its standard input. Without a timeout the runner's own default
    /// holds.
    pub fn resolve_agent_config(&mut self, knot: &Knot) -> (result: Result<
        (AgentConfig, Option<TimeSpan>),
        PortError,
    >)
        ensures
            exists|answer: Answer<Option<AgentProfileView>>|
                {
                    &&& took_place(
                        *old(self),
                        *final(self),
                        #[trigger] profile_step(knot@.agent_profile_ref, answer),
                    )
                    &&& match (found_profile(knot@.agent_profile_ref, answer), result) {
                        (Ok(profile), Ok(settings)) => settings.0@ == config_for(knot@, profile)
                            && settings.1 == profile_timeout(profile),
                        (Err(expected), Err(e)) => e@ == expected,
                        _ => false,
                    }
                },
    {
        let (result, Ghost(answer)) = self.resolve(knot);
        let ghost step = profile_step(knot@.agent_profile_ref, answer);
        result
    }

    /// Resolve a knot's configuration, and say what the profiles answered.
    fn resolve(&mut self, knot: &Knot) -> (r: (
        Result<(AgentConfig, Option<TimeSpan>), PortError>,
        Ghost<Answer<Option<AgentProfileView>>>,
    ))
        ensures
            took_place(
                *old(self),
                *final(self),
                profile_step(knot@.agent_profile_ref, r.1@),
            ),
            match (found_profile(knot@.agent_profile_ref, r.1@), r.0) {
                (Ok(profile), Ok(settings)) => settings.0@ == config_for(knot@, profile)
                    && settings.1 == profile_timeout(profile),
                (Err(expected), Err(e)) => e@ == expected,
                _ => false,
            },
    {
        let (loaded, Ghost(answer)) = self.load_profile(&knot.agent_profile_ref);
        match loaded {
            Err(e) => (Err(e), Ghost(answer)),
            Ok(profile) => {
                let timeout = match profile.timeout {
                    Some(secs) => Some(TimeSpan::from_secs(secs)),
                    None => None,
                };
                let config = AgentConfig {
                    goal: knot.prompt_template.instructions.clone(),
                    provider: profile.provider.clone(),
                    model: profile.model.clone(),
                    tools: clone_texts(&profile.tools),
                    extra_args: Vec::new(),
                    thinking_level: None,
                    ctx_wrap_up_limit: None,
                };
                assert(config@.extra_args =~= Seq::empty());
                (Ok((config, timeout)), Ghost(answer))
            },
        }
    }

    /// Append an event to the loom's log.
    fn tell(&mut self, event: LoomEvent) -> (answer: Result<(), PortError>)
        requires
            clock::utc_time(event@.timestamp),
        ensures
            took_place(
                *old(self),
                *final(self),
                log_step(event@.fact, ports::done(answer)),
            ),
    {
        proof {
            nothing_took_place(*self, Ok(()));
        }
        let ghost fact = event@.fact;
        let answer = self.trace.tell(&mut self.log_port, event);
        let ghost step = log_step(fact, ports::done(answer));
        assert(self.log_port.calls() =~= old(self).log_port.calls() + step.log);
        assert(self.trace.acts() =~= old(self).trace.acts() + step.acts);
        answer
    }

    /// Append to a tie-off file.
    fn tie(&mut self, tie_off: TieOff) -> (answer: Result<(), PortError>)
        ensures
            took_place(
                *old(self),
                *final(self),
                sink_step(tie_off@, ports::done(answer)),
            ),
    {
        proof {
            nothing_took_place(*self, Ok(()));
        }
        let ghost view = tie_off@;
        let answer = self.trace.tie(&mut self.tie_off_sink, tie_off);
        let ghost step = sink_step(view, ports::done(answer));
        assert(self.tie_off_sink.calls() =~= old(self).tie_off_sink.calls() + step.sink);
        assert(self.trace.acts() =~= old(self).trace.acts() + step.acts);
        answer
    }

    /// Append an event to the rig's log.
    fn tell_rig(&mut self, event: RigLogEvent) -> (answer: Result<(), PortError>)
        requires
            clock::utc_time(event@.timestamp),
        ensures
            took_place(
                *old(self),
                *final(self),
                rig_step(event@.fact, ports::done(answer)),
            ),
    {
        proof {
            nothing_took_place(*self, Ok(()));
        }
        let ghost fact = event@.fact;
        let answer = self.trace.tell_rig(&mut self.rig_log, event);
        let ghost step = rig_step(fact, ports::done(answer));
        assert(self.rig_log.calls() =~= old(self).rig_log.calls() + step.rig);
        assert(self.trace.acts() =~= old(self).trace.acts() + step.acts);
        answer
    }

    /// Answers where nothing is asked.
    spec fn no_io() -> ProcessIo {
        ProcessIo {
            content: StrandContent::Text,
            set_aside: Ok(()),
            processing: Ok(()),
            profile: Ok(None),
            again: Ok(None),
            history: Ok(Seq::empty()),
            start: session_resume::no_time(),
            first: FirstIo {
                answer: Err(PortErrorView::WaterMarkStop { session_id: None }),
                logged: Ok(()),
                compacted: Seq::empty(),
            },
            ios: Seq::empty(),
            tie_off: Ok(()),
            rig: Ok(()),
            knot: Ok(()),
            strand: Ok(()),
            commit: Ok(()),
        }
    }

    /// Look at a strand. Gives the result where the strand is set aside.
    fn check_content(&mut self, data: &JobData) -> (r: (
        Option<Result<(), PortError>>,
        Ghost<(StrandContent, Answer<()>)>,
    ))
        requires
            old(self).inspect.ready(),
        ensures
            forall|io: ProcessIo|
                io.content == r.1@.0 && io.set_aside == r.1@.1 ==> {
                    let step = #[trigger] look(data.job(), io);
                    &&& took_place(*old(self), *final(self), step)
                    &&& r.0 matches Some(result) ==> ports::done(result) == step.result
                    &&& r.0 is None ==> step.result is Ok
                },
            r.0 is None == goes_on(r.1@.0),
    {
        proof {
            nothing_took_place(*self, Ok(()));
        }
        let ghost start = *self;
        let content = self.trace.look(&mut self.inspect, &data.strand_path);
        let ghost told = *self;
        let ghost seen = Effects {
            inspected: seq![(data.strand_path@, content)],
            acts: seq![Act::Look(data.strand_path@, content)],
            ..Effects::only(Ok(()))
        };
        proof {
            assert(self.trace.acts() =~= start.trace.acts() + seen.acts);
            assert(took_place(start, *self, seen));
        }
        match content {
            StrandContent::Binary => {
                let answer = self.tell(
                    LoomEvent::StrandIgnored {
                        loom_id: data.loom_id.clone(),
                        knot_id: data.knot.id.clone(),
                        strand_path: data.strand_path.clone(),
                        reason: "binary file".to_string(),
                        timestamp: format_timestamp(),
                    },
                );
                let ghost given = ports::done(answer);
                proof {
                    let step = log_step(
                        LoomFact::StrandIgnored {
                            loom_id: data.loom_id@,
                            knot_id: data.knot.id@,
                            strand_path: data.strand_path@,
                            reason: "binary file"@,
                        },
                        given,
                    );
                    took_place_in_order(start, told, *self, seen, step);
                }
                (Some(answer), Ghost((content, given)))
            },
            StrandContent::Missing { known_temp } => {
                if known_temp {
                    return (Some(Ok(())), Ghost((content, Ok(()))));
                }
                let answer = self.tell(
                    LoomEvent::StrandSkipped {
                        loom_id: data.loom_id.clone(),
                        knot_id: data.knot.id.clone(),
                        strand_path: data.strand_path.clone(),
                        reason: "missing file (unknown pattern)".to_string(),
                        timestamp: format_timestamp(),
                    },
                );
                let ghost given = ports::done(answer);
                proof {
                    let step = log_step(
                        LoomFact::StrandSkipped {
                            loom_id: data.loom_id@,
                            knot_id: data.knot.id@,
                            strand_path: data.strand_path@,
                            reason: "missing file (unknown pattern)"@,
                        },
                        given,
                    );
                    took_place_in_order(start, told, *self, seen, step);
                }
                (Some(answer), Ghost((content, given)))
            },
            StrandContent::Text => (None, Ghost((content, Ok(())))),
            StrandContent::Unreadable => (None, Ghost((content, Ok(())))),
        }
    }

    /// Tell of a missing profile.
    fn abandon(&mut self, data: &JobData, error: PortError) -> (r: (
        Result<(), PortError>,
        Ghost<(Answer<()>, Answer<()>, Answer<()>)>,
    ))
        ensures
            forall|io: ProcessIo|
                io.tie_off == r.1@.0 && io.knot == r.1@.1 && io.strand == r.1@.2 ==> {
                    let steps = #[trigger] give_up(data.job(), error@, io);
                    &&& took_place(*old(self), *final(self), steps)
                    &&& ports::done(r.0) == steps.result
                },
    {
        let ghost job = data.job();
        let ghost start = *self;
        let message = error.display();
        let tied = self.tie(data.failure(message.as_str()));
        let ghost one = *self;
        let told = self.tell(data.failed_event(&message));
        let ghost two = *self;
        let closed = self.tell(data.processed_event(Some(message.clone())));
        let ghost (a, b, c) = (ports::done(tied), ports::done(told), ports::done(closed));
        proof {
            let m = error@.display();
            let first = sink_step(failure_of(job, m), a).whatever();
            let second = log_step(failed_fact(job, m), b).whatever();
            let third = log_step(processed_fact(job, Some(m)), c).whatever();
            took_place_in_order(start, one, two, first, second);
            took_place_in_order(start, two, *self, first.follow(second), third);
            nothing_took_place(*self, Err(error@));
            took_place_in_order(
                start,
                *self,
                *self,
                first.follow(second).follow(third),
                Effects::only(Err(error@)),
            );
        }
        (Err(error), Ghost((a, b, c)))
    }

    /// Commit a job's work, where the knot asks for it.
    fn commit(&mut self, data: &JobData, content: &String) -> (answer: Ghost<Answer<()>>)
        ensures
            took_place(
                *old(self),
                *final(self),
                commit_step(data.job(), content@, answer@),
            ),
    {
        proof {
            nothing_took_place(*self, Ok(()));
        }
        if !data.knot.git_versioned {
            return Ghost(Ok(()));
        }
        let label = data.kind.label();
        let answer = self.trace.commit(
            &mut self.git_versioning_port,
            &data.loom_id,
            &data.knot.id,
            &data.strand_path,
            label.as_str(),
            content.as_str(),
        );
        let ghost given = ports::done(answer);
        let ghost step = commit_step(data.job(), content@, given);
        assert(self.git_versioning_port.calls() =~= old(self).git_versioning_port.calls()
            + step.git);
        assert(self.trace.acts() =~= old(self).trace.acts() + step.acts);
        Ghost(given)
    }

    /// Close a job whose run succeeded.
    fn close_completed(&mut self, data: &JobData, content: String) -> (r: (
        Result<(), PortError>,
        Ghost<ProcessIo>,
    ))
        ensures
            forall|io: ProcessIo|
                io.tie_off == r.1@.tie_off && io.knot == r.1@.knot && io.strand == r.1@.strand
                    && io.commit == r.1@.commit ==> {
                    let steps = #[trigger] complete(data.job(), content@, io);
                    &&& took_place(*old(self), *final(self), steps)
                    &&& ports::done(r.0) == steps.result
                },
    {
        let ghost job = data.job();
        let ghost start = *self;
        let ghost view = content@;
        let ghost mut io = Self::no_io();
        let tied = self.tie(data.tie_off(content.clone(), TieOffStatus::Produced));
        let ghost one = *self;
        let ghost first = sink_step(
            tie_off_of(job, view, TieOffStatus::Produced),
            ports::done(tied),
        );
        proof {
            io = ProcessIo { tie_off: ports::done(tied), ..io };
        }
        if let Err(e) = tied {
            return (Err(e), Ghost(io));
        }
        let told = self.tell(
            LoomEvent::KnotCompleted {
                loom_id: data.loom_id.clone(),
                knot_id: data.knot.id.clone(),
                strand_path: data.strand_path.clone(),
                tie_off_path: data.tie_off_path.clone(),
                timestamp: format_timestamp(),
            },
        );
        let ghost two = *self;
        let ghost second = log_step(
            LoomFact::KnotCompleted {
                loom_id: job.loom_id,
                knot_id: job.knot.id,
                strand_path: job.strand_path,
                tie_off_path: job.tie_off_path,
            },
            ports::done(told),
        );
        proof {
            io = ProcessIo { knot: ports::done(told), ..io };
            took_place_in_order(start, one, two, first, second);
        }
        if let Err(e) = told {
            return (Err(e), Ghost(io));
        }
        let closed = self.tell(data.processed_event(None));
        let ghost three = *self;
        let ghost third = log_step(processed_fact(job, None), ports::done(closed));
        proof {
            io = ProcessIo { strand: ports::done(closed), ..io };
            took_place_in_order(start, two, three, first.follow(second), third);
        }
        if let Err(e) = closed {
            return (Err(e), Ghost(io));
        }
        let Ghost(committed) = self.commit(data, &content);
        proof {
            io = ProcessIo { commit: committed, ..io };
            took_place_in_order(
                start,
                three,
                *self,
                first.follow(second).follow(third),
                commit_step(job, view, committed),
            );
        }
        (Ok(()), Ghost(io))
    }

    /// Report why a run failed.
    fn report_failure(&mut self, data: &JobData, error: &PortError) -> (r: Ghost<ProcessIo>)
        ensures
            forall|io: ProcessIo|
                io.tie_off == r@.tie_off && io.rig == r@.rig ==> took_place(
                    *old(self),
                    *final(self),
                    #[trigger] report(data.job(), error@, io),
                ),
    {
        let message = error.display();
        let ghost mut io = Self::no_io();
        match error {
            PortError::Timeout { .. } => {
                let answer = self.tell_rig(
                    RigLogEvent::TimeoutExceeded {
                        loom_id: data.loom_id.clone(),
                        knot_id: data.knot.id.clone(),
                        strand_path: data.strand_path.clone(),
                        error: message,
                        timestamp: format_timestamp(),
                    },
                );
                proof {
                    io = ProcessIo { rig: ports::done(answer), ..io };
                }
            },
            _ => {
                let answer = self.tie(data.failure(message.as_str()));
                proof {
                    io = ProcessIo { tie_off: ports::done(answer), ..io };
                }
            },
        }
        Ghost(io)
    }

    /// Close a job whose run failed.
    fn close_failed(&mut self, data: &JobData, error: PortError) -> (r: (
        Result<(), PortError>,
        Ghost<ProcessIo>,
    ))
        ensures
            forall|io: ProcessIo|
                io.tie_off == r.1@.tie_off && io.rig == r.1@.rig && io.knot == r.1@.knot
                    && io.strand == r.1@.strand ==> {
                    let steps = #[trigger] fail(data.job(), error@, io);
                    &&& took_place(*old(self), *final(self), steps)
                    &&& ports::done(r.0) == steps.result
                },
    {
        let ghost job = data.job();
        let ghost start = *self;
        let message = error.display();
        let Ghost(reported) = self.report_failure(data, &error);
        let ghost mut io = reported;
        let ghost one = *self;
        let ghost first = report(job, error@, reported);
        let told = self.tell(data.failed_event(&message));
        let ghost two = *self;
        let ghost second = log_step(failed_fact(job, error@.display()), ports::done(told));
        proof {
            io = ProcessIo { knot: ports::done(told), ..io };
            took_place_in_order(start, one, two, first, second);
        }
        if let Err(e) = told {
            return (Err(e), Ghost(io));
        }
        let closed = self.tell(data.processed_event(Some(message)));
        proof {
            let third = log_step(
                processed_fact(job, Some(error@.display())),
                ports::done(closed),
            );
            io = ProcessIo { strand: ports::done(closed), ..io };
            took_place_in_order(start, two, *self, first.follow(second), third);
        }
        (closed, Ghost(io))
    }

    /// Run the agent for a job.
    fn invoke(
        &mut self,
        data: &JobData,
        config: AgentConfig,
        profile: AgentProfile,
        timeout: Option<TimeSpan>,
        prompt: String,
    ) -> (r: (Result<AgentOutput, PortError>, Ghost<(TimeSpan, FirstIo, Seq<RetryIo>)>))
        requires
            old(self).clock.ready(),
        ensures
            ({
                let run = session_resume::run_from(
                    r.1@.0,
                    plan_for(
                        data.job(),
                        profile@,
                        timeout,
                        session_resume::delay_set(old(self).delay_millis),
                    ),
                    config@,
                    prompt@,
                    None,
                    r.1@.1,
                    r.1@.2,
                );
                &&& took_place(*old(self), *final(self), run_effects(run))
                &&& ports::answered(r.0) == run.result
            }),
    {
        proof {
            nothing_took_place(*self, Ok(()));
        }
        let ghost start = *self;
        let ghost plan = plan_for(
            data.job(),
            profile@,
            timeout,
            session_resume::delay_set(self.delay_millis),
        );
        let ghost settings = config@;
        let ghost asked = prompt@;
        let strand_file_ref = match data.kind {
            KnotEventType::Deleted => None,
            _ => Some(data.strand_path.clone()),
        };
        let mut session_id: Option<String> = None;
        let result = execute_with_resume(
            &mut self.agent_runner,
            &mut self.log_port,
            &data.loom_id,
            &data.knot.id,
            &data.strand_path,
            &mut session_id,
            config,
            prompt,
            strand_file_ref,
            profile.profile_prompt,
            data.kind.label(),
            Some(data.knot.id.0.clone()),
            timeout,
            self.delay_millis,
            &mut self.clock,
            &mut self.trace,
        );
        let ghost (t, first, ios) = choose|t: TimeSpan, first: FirstIo, ios: Seq<RetryIo>|
            {
                let run = #[trigger] session_resume::run_from(
                    t,
                    plan,
                    settings,
                    asked,
                    None,
                    first,
                    ios,
                );
                &&& ios.len() == session_resume::MAX_RETRIES
                &&& self.agent_runner.calls() == start.agent_runner.calls() + run.calls
                &&& self.log_port.calls() == start.log_port.calls() + run.log
                &&& outside::asked(start.clock, self.clock, run.pauses)
                &&& self.trace.acts() == start.trace.acts() + run.acts
                &&& ports::answered(result) == run.result
                &&& text::opt_text(session_id) == run.session_id
            };
        (result, Ghost((t, first, ios)))
    }

    /// Build the prompt for a job. For a deleted strand, the tie-off file is
    /// read for its history.
    fn build_prompt(&mut self, data: &JobData) -> (r: (String, Ghost<Answer<Seq<char>>>))
        ensures
            forall|io: ProcessIo|
                io.history == r.1@ ==> took_place(
                    *old(self),
                    *final(self),
                    #[trigger] read_history(data.job(), io),
                ),
            r.0@ == prompt_for(data.job(), r.1@),
    {
        proof {
            nothing_took_place(*self, Ok(()));
        }
        let instructions = &data.knot.prompt_template.instructions;
        match data.kind {
            KnotEventType::Deleted => {
                let answer = self.trace.read_back(&mut self.tie_off_sink, &data.tie_off_path);
                let ghost given = ports::answered(answer);
                let ghost call = SinkCall::ReadContent {
                    path: data.tie_off_path@,
                    answer: given,
                };
                assert(self.tie_off_sink.calls() =~= old(self).tie_off_sink.calls() + seq![call]);
                assert(self.trace.acts() =~= old(self).trace.acts() + seq![Act::Sink(call)]);
                let content = match answer {
                    Ok(content) => content,
                    Err(_) => String::new(),
                };
                let prompt = deletion_prompt(
                    instructions.as_str(),
                    &data.strand_path,
                    content.as_str(),
                );
                (prompt, Ghost(given))
            },
            _ => (instructions.clone(), Ghost(Ok(Seq::empty()))),
        }
    }

    /// Run the agent for a job, and close the job.
    fn run_and_close(
        &mut self,
        data: &JobData,
        config: AgentConfig,
        profile: AgentProfile,
        timeout: Option<TimeSpan>,
    ) -> (r: (Result<(), PortError>, Ghost<ProcessIo>))
        requires
            old(self).clock.ready(),
        ensures
            forall|io: ProcessIo|
                same_close(io, r.1@) ==> {
                    let steps = read_history(data.job(), io).follow(
                        #[trigger] run_job(
                            data.job(),
                            config@,
                            profile@,
                            timeout,
                            session_resume::delay_set(old(self).delay_millis),
                            io,
                        ),
                    );
                    &&& took_place(*old(self), *final(self), steps)
                    &&& ports::done(r.0) == steps.result
                },
    {
        let ghost job = data.job();
        let ghost start = *self;
        let (prompt, Ghost(history)) = self.build_prompt(data);
        let ghost one = *self;
        let ghost reading = read_history(job, ProcessIo { history, ..Self::no_io() });
        assert(took_place(start, one, reading));
        let ghost plan = plan_for(
            job,
            profile@,
            timeout,
            session_resume::delay_set(self.delay_millis),
        );
        let ghost settings = config@;
        let (result, Ghost(ran)) = self.invoke(data, config, profile, timeout, prompt);
        let ghost two = *self;
        let ghost run = session_resume::run_from(
            ran.0,
            plan,
            settings,
            prompt_for(job, history),
            None,
            ran.1,
            ran.2,
        );
        let ghost given = ports::answered(result);
        let (closed, Ghost(closing)) = match result {
            Ok(output) => self.close_completed(data, output.stdout),
            Err(error) => self.close_failed(data, error),
        };
        let ghost io = ProcessIo {
            history,
            start: ran.0,
            first: ran.1,
            ios: ran.2,
            ..closing
        };
        proof {
            assert forall|other: ProcessIo| same_close(other, io) implies {
                let steps = read_history(job, other).follow(
                    #[trigger] run_job(
                        job,
                        settings,
                        profile@,
                        timeout,
                        session_resume::delay_set(start.delay_millis),
                        other,
                    ),
                );
                &&& took_place(start, *self, steps)
                &&& ports::done(closed) == steps.result
            } by {
                let reading = read_history(job, other);
                let running = run_effects(run);
                let ending = match given {
                    Ok(output) => complete(job, output.stdout, other),
                    Err(error) => fail(job, error, other),
                };
                took_place_in_order(one, two, *self, running, ending);
                took_place_in_order(start, one, *self, reading, running.follow(ending));
            }
        }
        (closed, Ghost(io))
    }

    /// Process a job whose strand is in order.
    fn process_in_order(&mut self, data: &JobData) -> (r: (
        Result<(), PortError>,
        Ghost<ProcessIo>,
    ))
        requires
            old(self).clock.ready(),
        ensures
            forall|io: ProcessIo|
                same_close(io, r.1@) && io.processing == r.1@.processing && io.profile
                    == r.1@.profile && io.again == r.1@.again ==> {
                    let steps = #[trigger] process_job(
                        data.job(),
                        session_resume::delay_set(old(self).delay_millis),
                        io,
                    );
                    &&& took_place(*old(self), *final(self), steps)
                    &&& ports::done(r.0) == steps.result
                },
    {
        let ghost job = data.job();
        let ghost name = job.knot.agent_profile_ref;
        let ghost start = *self;
        let ghost delay = session_resume::delay_set(self.delay_millis);
        let ghost mut io = Self::no_io();
        let told = self.tell(
            LoomEvent::KnotProcessing {
                loom_id: data.loom_id.clone(),
                knot_id: data.knot.id.clone(),
                strand_path: data.strand_path.clone(),
                timestamp: format_timestamp(),
            },
        );
        let ghost one = *self;
        let ghost first = log_step(
            LoomFact::KnotProcessing {
                loom_id: job.loom_id,
                knot_id: job.knot.id,
                strand_path: job.strand_path,
            },
            ports::done(told),
        );
        proof {
            io = ProcessIo { processing: ports::done(told), ..io };
        }
        if let Err(e) = told {
            return (Err(e), Ghost(io));
        }
        let (resolved, Ghost(profile_answer)) = self.resolve(&data.knot);
        let ghost two = *self;
        let ghost second = profile_step(name, profile_answer);
        proof {
            io = ProcessIo { profile: profile_answer, ..io };
            took_place_in_order(start, one, two, first, second);
        }
        let (config, timeout) = match resolved {
            Ok(settings) => settings,
            Err(e) => {
                let ghost error = e@;
                let (result, Ghost(given)) = self.abandon(data, e);
                proof {
                    io = ProcessIo { tie_off: given.0, knot: given.1, strand: given.2, ..io };
                    assert forall|other: ProcessIo|
                        same_close(other, io) && other.processing == io.processing
                            && other.profile == io.profile && other.again == io.again implies {
                        let steps = #[trigger] process_job(job, delay, other);
                        &&& took_place(start, *self, steps)
                        &&& ports::done(result) == steps.result
                    } by {
                        let ending = give_up(job, error, other);
                        took_place_in_order(
                            start,
                            two,
                            *self,
                            first.follow(second),
                            ending,
                        );
                    }
                }
                return (result, Ghost(io));
            },
        };
        let (loaded, Ghost(again)) = self.load_profile(&data.knot.agent_profile_ref);
        let ghost three = *self;
        let ghost third = profile_step(name, again);
        proof {
            io = ProcessIo { again, ..io };
        }
        let profile = match loaded {
            Ok(profile) => profile,
            Err(e) => {
                proof {
                    let failing = Effects::only(Err(e@));
                    nothing_took_place(*self, Err(e@));
                    took_place_in_order(two, three, *self, third, failing);
                    took_place_in_order(
                        start,
                        two,
                        *self,
                        first.follow(second),
                        third.follow(failing),
                    );
                }
                return (Err(e), Ghost(io));
            },
        };
        let ghost settings = config@;
        let ghost persona = profile@;
        let (result, Ghost(closing)) = self.run_and_close(data, config, profile, timeout);
        proof {
            io = ProcessIo {
                processing: io.processing,
                profile: io.profile,
                again: io.again,
                ..closing
            };
            assert forall|other: ProcessIo|
                same_close(other, io) && other.processing == io.processing && other.profile
                    == io.profile && other.again == io.again implies {
                let steps = #[trigger] process_job(job, delay, other);
                &&& took_place(start, *self, steps)
                &&& ports::done(result) == steps.result
            } by {
                let running = read_history(job, other).follow(
                    run_job(job, settings, persona, timeout, delay, other),
                );
                took_place_in_order(two, three, *self, third, running);
                took_place_in_order(
                    start,
                    two,
                    *self,
                    first.follow(second),
                    third.follow(running),
                );
            }
        }
        (result, Ghost(io))
    }

    /// Execute the strand processing pipeline.
    ///
    /// A run of the agent that fails is reported and logged, and is no failure
    /// of the processing itself.
    pub fn execute(&mut self, event: StrandEvent) -> (result: Result<(), PortError>)
        requires
            old(self).inspect.ready(),
            old(self).clock.ready(),
        ensures
            exists|io: ProcessIo|
                {
                    let effects = #[trigger] process(
                        old(self).store@,
                        old(self).rig_dir@,
                        session_resume::delay_set(old(self).delay_millis),
                        event@,
                        io,
                    );
                    &&& took_place(*old(self), *final(self), effects)
                    &&& ports::done(result) == effects.result
                },
    {
        let ghost start = *self;
        let ghost delay = session_resume::delay_set(self.delay_millis);
        let ghost store = self.store@;
        let ghost rig = self.rig_dir@;
        let ghost view = event@;
        let kind = event.kind();
        let (loom_id, knot_id, strand_path) = event.fields();
        let loom = match self.store.get(loom_id) {
            Some(loom) => loom,
            None => {
                proof {
                    nothing_took_place(*self, Err(PortErrorView::LoomNotFound(loom_id@)));
                    let effects = process(store, rig, delay, view, Self::no_io());
                }
                return Err(PortError::LoomNotFound(loom_id.clone()));
            },
        };
        let i = match loom.position(knot_id) {
            Some(i) => i,
            None => {
                let mut message = "knot '".to_string();
                message.append(knot_id.0.as_str());
                message.append("' not found in loom '");
                message.append(loom_id.0.as_str());
                message.append("'");
                proof {
                    nothing_took_place(
                        *self,
                        Err(PortErrorView::KnotStatusDeriveFailed(message@)),
                    );
                    let effects = process(store, rig, delay, view, Self::no_io());
                }
                return Err(PortError::KnotStatusDeriveFailed(message));
            },
        };
        assert(loom@.knots[i as int] == loom.knots@[i as int]@);
        let data = JobData {
            loom_id: loom_id.clone(),
            knot: loom.knots[i].clone(),
            strand_path: strand_path.clone(),
            kind,
            tie_off_path: self.compute_tie_off_path(loom_id, knot_id),
        };
        let ghost job = data.job();
        let deleted = match kind {
            KnotEventType::Deleted => true,
            _ => false,
        };
        if deleted {
            let (result, Ghost(io)) = self.process_in_order(&data);
            proof {
                let steps = process_job(job, delay, io);
                let effects = process(store, rig, delay, view, io);
            }
            return result;
        }
        let (stopped, Ghost(seen)) = self.check_content(&data);
        let ghost middle = *self;
        let ghost looking = look(
            job,
            ProcessIo { content: seen.0, set_aside: seen.1, ..Self::no_io() },
        );
        assert(took_place(start, middle, looking));
        if let Some(result) = stopped {
            proof {
                let io = ProcessIo { content: seen.0, set_aside: seen.1, ..Self::no_io() };
                let step = look(job, io);
                let effects = process(store, rig, delay, view, io);
            }
            return result;
        }
        let (result, Ghost(rest)) = self.process_in_order(&data);
        proof {
            let io = ProcessIo { content: seen.0, set_aside: seen.1, ..rest };
            let step = look(job, io);
            let steps = process_job(job, delay, io);
            took_place_in_order(start, middle, *self, step, steps);
            let effects = process(store, rig, delay, view, io);
        }
        result
    }

    /// Compute the path of a knot's tie-off file.
    fn compute_tie_off_path(&self, loom_id: &LoomId, knot_id: &KnotId) -> (path: TieOffPath)
        ensures
            path@ == tie_off_path(self.rig_dir@, loom_id@, knot_id@),
    {
        let base = join_path(self.rig_dir.as_str(), "tie-offs");
        let base = join_path(base.as_str(), loom_id.0.as_str());
        let base = join_path(base.as_str(), knot_id.0.as_str());
        let mut file = knot_id.0.clone();
        file.append("-tie-off.md");
        TieOffPath(join_path(base.as_str(), file.as_str()))
    }
}

/// The outside answers the same from the run on.
spec fn same_close(a: ProcessIo, b: ProcessIo) -> bool {
    &&& a.history == b.history
    &&& a.start == b.start
    &&& a.first == b.first
    &&& a.ios == b.ios
    &&& a.tie_off == b.tie_off
    &&& a.rig == b.rig
    &&& a.knot == b.knot
    &&& a.strand == b.strand
    &&& a.commit == b.commit
}

// ── Laws ───────────────────────────────────────────────────────────────

/// The run that a job makes.
pub open spec fn job_run(
    job: Job,
    config: AgentConfigView,
    profile: AgentProfileView,
    timeout: Option<TimeSpan>,
    delay: TimeSpan,
    io: ProcessIo,
) -> Run {
    session_resume::run_from(
        io.start,
        plan_for(job, profile, timeout, delay),
        config,
        prompt_for(job, io.history),
        None,
        io.first,
        io.ios,
    )
}

/// A strand that is binary or missing is never handed to the agent, and
/// nothing is written or committed for it.
pub proof fn strands_set_aside_run_no_agent(
    store: Map<Seq<char>, LoomView>,
    rig_dir: Seq<char>,
    delay: TimeSpan,
    event: StrandEventView,
    io: ProcessIo,
)
    requires
        !(event.kind is Deleted),
        !goes_on(io.content),
    ensures
        ({
            let effects = process(store, rig_dir, delay, event, io);
            &&& effects.runner.len() == 0
            &&& effects.sink.len() == 0
            &&& effects.profiles.len() == 0
            &&& effects.git.len() == 0
        }),
{
}

/// A run that timed out is told to the rig's log, and leaves the tie-off file
/// alone.
pub proof fn timeouts_leave_the_tie_off_alone(
    job: Job,
    config: AgentConfigView,
    profile: AgentProfileView,
    timeout: Option<TimeSpan>,
    delay: TimeSpan,
    io: ProcessIo,
)
    requires
        job_run(job, config, profile, timeout, delay, io).result is Err,
        job_run(job, config, profile, timeout, delay, io).result->Err_0 is Timeout,
    ensures
        ({
            let error = job_run(job, config, profile, timeout, delay, io).result->Err_0;
            let effects = run_job(job, config, profile, timeout, delay, io);
            &&& effects.sink.len() == 0
            &&& effects.rig == seq![
                RigLogCall::Append {
                    fact: RigFact::TimeoutExceeded {
                        loom_id: job.loom_id,
                        knot_id: job.knot.id,
                        strand_path: job.strand_path,
                        error: error.display(),
                    },
                    stamped: true,
                    answer: io.rig,
                },
            ]
        }),
{
    let error = job_run(job, config, profile, timeout, delay, io).result->Err_0;
    let effects = run_job(job, config, profile, timeout, delay, io);
    assert(effects.rig =~= report(job, error, io).rig);
}

/// A run that failed for any other reason is told to the tie-off file, and not
/// to the rig's log.
pub proof fn failures_are_tied_off(
    job: Job,
    config: AgentConfigView,
    profile: AgentProfileView,
    timeout: Option<TimeSpan>,
    delay: TimeSpan,
    io: ProcessIo,
)
    requires
        job_run(job, config, profile, timeout, delay, io).result is Err,
        !(job_run(job, config, profile, timeout, delay, io).result->Err_0 is Timeout),
    ensures
        ({
            let error = job_run(job, config, profile, timeout, delay, io).result->Err_0;
            let effects = run_job(job, config, profile, timeout, delay, io);
            &&& effects.rig.len() == 0
            &&& effects.sink == seq![
                SinkCall::Append {
                    tie_off: failure_of(job, error.display()),
                    answer: io.tie_off,
                },
            ]
        }),
{
    let error = job_run(job, config, profile, timeout, delay, io).result->Err_0;
    let effects = run_job(job, config, profile, timeout, delay, io);
    assert(effects.sink =~= report(job, error, io).sink);
}

/// A run that failed is no failure of the processing, as long as the loom's
/// log takes the events.
pub proof fn failed_runs_are_no_failures(
    job: Job,
    config: AgentConfigView,
    profile: AgentProfileView,
    timeout: Option<TimeSpan>,
    delay: TimeSpan,
    io: ProcessIo,
)
    requires
        job_run(job, config, profile, timeout, delay, io).result is Err,
        io.knot is Ok,
        io.strand is Ok,
    ensures
        run_job(job, config, profile, timeout, delay, io).result is Ok,
{
}

/// Work is committed only for a run that succeeded, of a knot that asks for it,
/// and only once the tie-off is written and the completion is logged.
pub proof fn only_completed_work_is_committed(
    job: Job,
    config: AgentConfigView,
    profile: AgentProfileView,
    timeout: Option<TimeSpan>,
    delay: TimeSpan,
    io: ProcessIo,
)
    requires
        run_job(job, config, profile, timeout, delay, io).git.len() > 0,
    ensures
        job_run(job, config, profile, timeout, delay, io).result is Ok,
        job.knot.git_versioned,
        io.tie_off is Ok,
        io.knot is Ok,
        io.strand is Ok,
{
}

/// Whether a call logs that the knot starts to process the job's strand.
pub open spec fn starts_job(call: LoomLogCall, job: Job) -> bool {
    call matches LoomLogCall::Append { fact, .. } && fact == (LoomFact::KnotProcessing {
        loom_id: job.loom_id,
        knot_id: job.knot.id,
        strand_path: job.strand_path,
    })
}

/// Whether a call logs how the knot's processing ended.
pub open spec fn ends_knot(call: LoomLogCall) -> bool {
    call matches LoomLogCall::Append { fact, .. } && (fact is KnotCompleted || fact is KnotFailed)
}

/// Whether a call logs that the job's strand has been processed.
pub open spec fn ends_job(call: LoomLogCall, job: Job) -> bool {
    call matches LoomLogCall::Append { fact, .. } && exists|error: Option<Seq<char>>|
        fact == processed_fact(job, error)
}

/// A job that is processed without a failure is logged from start to end: that
/// the knot processes the strand comes first, that the knot completed or
/// failed comes last but one, and that the strand has been processed comes
/// last.
pub proof fn processing_is_logged(job: Job, delay: TimeSpan, io: ProcessIo)
    requires
        process_job(job, delay, io).result is Ok,
    ensures
        ({
            let log = process_job(job, delay, io).log;
            &&& log.len() >= 3
            &&& starts_job(log[0], job)
            &&& ends_knot(log[log.len() - 2])
            &&& ends_job(log.last(), job)
        }),
{
    let name = job.knot.agent_profile_ref;
    let log = process_job(job, delay, io).log;
    let settings = found_profile(name, io.profile)->Ok_0;
    let profile = found_profile(name, io.again)->Ok_0;
    let config = config_for(job.knot, settings);
    let timeout = profile_timeout(settings);
    let run = job_run(job, config, profile, timeout, delay, io);
    let n = log.len() as int;
    match run.result {
        Ok(output) => {
            let ending = complete(job, output.stdout, io).log;
            assert(ending.len() == 2);
            assert(log[n - 1] == ending[1] && log[n - 2] == ending[0]);
            assert(ending[1] == LoomLogCall::Append {
                fact: processed_fact(job, None),
                stamped: true,
                answer: io.strand,
            });
        },
        Err(error) => {
            let ending = fail(job, error, io).log;
            assert(ending.len() == 2);
            assert(log[n - 1] == ending[1] && log[n - 2] == ending[0]);
            assert(ending[1] == LoomLogCall::Append {
                fact: processed_fact(job, Some(error.display())),
                stamped: true,
                answer: io.strand,
            });
        },
    }
}

/// What a run completed is committed where the knot asks for it: exactly once,
/// with the output as it stands in the tie-off, once the tie-off is written
/// and the completion is logged.
pub proof fn completed_work_is_committed(
    job: Job,
    config: AgentConfigView,
    profile: AgentProfileView,
    timeout: Option<TimeSpan>,
    delay: TimeSpan,
    io: ProcessIo,
)
    requires
        job_run(job, config, profile, timeout, delay, io).result is Ok,
        job.knot.git_versioned,
        io.tie_off is Ok,
        io.knot is Ok,
        io.strand is Ok,
    ensures
        ({
            let output = job_run(job, config, profile, timeout, delay, io).result->Ok_0;
            let effects = run_job(job, config, profile, timeout, delay, io);
            &&& effects.result is Ok
            &&& effects.sink == seq![
                SinkCall::Append {
                    tie_off: tie_off_of(job, output.stdout, TieOffStatus::Produced),
                    answer: io.tie_off,
                },
            ]
            &&& effects.git == seq![
                GitCall::Commit {
                    loom_id: job.loom_id,
                    knot_id: job.knot.id,
                    strand_path: job.strand_path,
                    event_type: events::kind_label(job.kind),
                    tie_off_content: output.stdout,
                    answer: io.commit,
                },
            ]
        }),
{
    let output = job_run(job, config, profile, timeout, delay, io).result->Ok_0;
    let effects = run_job(job, config, profile, timeout, delay, io);
    assert(effects.sink =~= complete(job, output.stdout, io).sink);
    assert(effects.git =~= commit_step(job, output.stdout, io.commit).git);
}

/// A commit comes last of all: behind the run, the tie-off that was written,
/// and the logged completion, in this order.
pub proof fn commits_come_last(
    job: Job,
    config: AgentConfigView,
    profile: AgentProfileView,
    timeout: Option<TimeSpan>,
    delay: TimeSpan,
    io: ProcessIo,
)
    requires
        run_job(job, config, profile, timeout, delay, io).git.len() > 0,
    ensures
        ({
            let run = job_run(job, config, profile, timeout, delay, io);
            let effects = run_job(job, config, profile, timeout, delay, io);
            let n = run.acts.len() as int;
            &&& effects.acts.len() == n + 4
            &&& effects.acts.take(n) == run.acts
            &&& effects.acts[n] == Act::Sink(
                SinkCall::Append {
                    tie_off: tie_off_of(job, run.result->Ok_0.stdout, TieOffStatus::Produced),
                    answer: io.tie_off,
                },
            )
            &&& io.tie_off is Ok
            &&& effects.acts[n + 1] matches Act::Log(call) && ends_knot(call)
            &&& effects.acts[n + 2] matches Act::Log(call) && ends_job(call, job)
            &&& effects.acts[n + 3] == Act::Git(effects.git[0])
        }),
{
    let run = job_run(job, config, profile, timeout, delay, io);
    let effects = run_job(job, config, profile, timeout, delay, io);
    let ending = complete(job, run.result->Ok_0.stdout, io);
    assert(effects.acts =~= run.acts + ending.acts);
    assert(effects.acts.take(run.acts.len() as int) =~= run.acts);
    assert(effects.git =~= ending.git);
    let n = run.acts.len() as int;
    let strand = LoomLogCall::Append {
        fact: processed_fact(job, None),
        stamped: true,
        answer: io.strand,
    };
    assert(ending.acts.len() == 4);
    assert(ending.acts[2] == Act::Log(strand));
    assert(effects.acts[n + 2] == ending.acts[2]);
    assert(ends_job(strand, job));
    assert(effects.acts[n + 1] == ending.acts[1]);
    assert(effects.acts[n + 3] == ending.acts[3]);
    assert(effects.acts[n] == ending.acts[0]);
}

/// A failed run is reported before its failure is logged: the rig's log is
/// told of a timeout, or the tie-off file of any other error, right behind the
/// run, and the loom's log of the failed knot right behind that.
pub proof fn reports_come_before_the_failure(
    job: Job,
    config: AgentConfigView,
    profile: AgentProfileView,
    timeout: Option<TimeSpan>,
    delay: TimeSpan,
    io: ProcessIo,
)
    requires
        job_run(job, config, profile, timeout, delay, io).result is Err,
    ensures
        ({
            let run = job_run(job, config, profile, timeout, delay, io);
            let error = run.result->Err_0;
            let acts = run_job(job, config, profile, timeout, delay, io).acts;
            let n = run.acts.len() as int;
            &&& acts.len() >= n + 2
            &&& acts.take(n) == run.acts
            &&& acts[n] == report(job, error, io).acts[0]
            &&& if error is Timeout {
                acts[n] is Rig
            } else {
                acts[n] is Sink
            }
            &&& acts[n + 1] == log_step(failed_fact(job, error.display()), io.knot).acts[0]
        }),
{
    let run = job_run(job, config, profile, timeout, delay, io);
    let acts = run_job(job, config, profile, timeout, delay, io).acts;
    assert(acts =~= run.acts + fail(job, run.result->Err_0, io).acts);
    assert(acts.take(run.acts.len() as int) =~= run.acts);
}

/// The tie-off file only ever grows: processing appends to it and reads it,
/// and never writes it anew.
pub proof fn tie_offs_are_append_only(
    store: Map<Seq<char>, LoomView>,
    rig_dir: Seq<char>,
    delay: TimeSpan,
    event: StrandEventView,
    io: ProcessIo,
    i: int,
)
    requires
        0 <= i < process(store, rig_dir, delay, event, io).sink.len(),
    ensures
        !(process(store, rig_dir, delay, event, io).sink[i] is Write),
{
}

/// The knot that an event names is the first of that name in its loom.
proof fn the_named_knot_is_found(loom: LoomView, knot_id: Seq<char>, at: int)
    requires
        0 <= at < loom.knots.len(),
        loom.knots[at].id == knot_id,
        forall|j: int| 0 <= j < at ==> (#[trigger] loom.knots[j]).id != knot_id,
    ensures
        loom.position(knot_id) == Some(at),
{
    assert(loom.first_at(knot_id, at));
    let p = loom.position(knot_id)->0;
    assert(loom.first_at(knot_id, p));
    if p < at {
        assert(loom.knots[p].id != knot_id);
    } else if at < p {
        assert(loom.knots[at].id != knot_id);
    }
}

/// Every request to the agent is about the event: it names the event's strand
/// and knot and its kind, and refers to the strand's file unless the strand was
/// deleted, when there is no file to refer to.
#[verifier::spinoff_prover]
#[verifier::rlimit(40)]
pub proof fn requests_are_about_the_event(
    store: Map<Seq<char>, LoomView>,
    rig_dir: Seq<char>,
    delay: TimeSpan,
    event: StrandEventView,
    io: ProcessIo,
    i: int,
)
    requires
        0 <= i < process(store, rig_dir, delay, event, io).runner.len(),
    ensures
        ({
            let call = process(store, rig_dir, delay, event, io).runner[i];
            let request = call->ExecuteWithConfig_request;
            &&& call is ExecuteWithConfig
            &&& request.strand_path == event.strand_path
            &&& event.kind is Created ==> request.strand_file_ref == Some(event.strand_path)
                && request.event_type == "Created"@
            &&& event.kind is Modified ==> request.strand_file_ref == Some(event.strand_path)
                && request.event_type == "Modified"@
            &&& event.kind is Deleted ==> request.strand_file_ref is None && request.event_type
                == "Deleted"@
            &&& request.knot_name == Some(event.knot_id)
        }),
{
    let loom = store[event.loom_id];
    let at = loom.position(event.knot_id)->0;
    assert(loom.first_at(event.knot_id, at));
    let job = Job {
        loom_id: event.loom_id,
        knot: loom.knots[at],
        strand_path: event.strand_path,
        kind: event.kind,
        tie_off_path: tie_off_path(rig_dir, event.loom_id, event.knot_id),
    };
    let name = job.knot.agent_profile_ref;
    let settings = found_profile(name, io.profile)->Ok_0;
    let profile = found_profile(name, io.again)->Ok_0;
    let plan = plan_for(job, profile, profile_timeout(settings), delay);
    let config = config_for(job.knot, settings);
    let prompt = prompt_for(job, io.history);
    session_resume::runs_are_bounded(
        PlanView { start: io.start, ..plan },
        config,
        prompt,
        None,
        io.first,
        io.ios,
    );
    let run = job_run(job, config, profile, profile_timeout(settings), delay, io);
    assert(process(store, rig_dir, delay, event, io).runner =~= run.calls);
}

/// When an event comes to a run of the agent: its loom and its knot are there,
/// its strand was deleted or is text or cannot be read, the log takes the
/// start, and the knot's profile is found both times.
pub open spec fn comes_to_a_run(
    store: Map<Seq<char>, LoomView>,
    event: StrandEventView,
    io: ProcessIo,
) -> bool {
    &&& store.contains_key(event.loom_id)
    &&& exists|j: int|
        0 <= j < store[event.loom_id].knots.len() && (#[trigger] store[event.loom_id].knots[j]).id
            == event.knot_id
    &&& event.kind is Deleted || io.content is Text || io.content is Unreadable
    &&& io.processing is Ok
    &&& io.profile is Ok && io.profile->Ok_0 is Some
    &&& io.again is Ok && io.again->Ok_0 is Some
}

/// The agent is run exactly for the events that come to a run.
pub proof fn agents_run_when_they_can(
    store: Map<Seq<char>, LoomView>,
    rig_dir: Seq<char>,
    delay: TimeSpan,
    event: StrandEventView,
    io: ProcessIo,
)
    ensures
        process(store, rig_dir, delay, event, io).runner.len() > 0 <==> comes_to_a_run(
            store,
            event,
            io,
        ),
{
    let loom = store[event.loom_id];
    let found = loom.position(event.knot_id);
    if found is Some {
        assert(loom.first_at(event.knot_id, found->0));
        let job = Job {
            loom_id: event.loom_id,
            knot: loom.knots[found->0],
            strand_path: event.strand_path,
            kind: event.kind,
            tie_off_path: tie_off_path(rig_dir, event.loom_id, event.knot_id),
        };
        let settings = io.profile->Ok_0->0;
        let plan = plan_for(job, io.again->Ok_0->0, profile_timeout(settings), delay);
        session_resume::runs_are_bounded(
            PlanView { start: io.start, ..plan },
            config_for(job.knot, settings),
            prompt_for(job, io.history),
            None,
            io.first,
            io.ios,
        );
    } else if comes_to_a_run(store, event, io) {
        let j = choose|j: int|
            0 <= j < loom.knots.len() && (#[trigger] loom.knots[j]).id == event.knot_id;
        crate::entities::knots_are_found_by_name(loom, event.knot_id, j);
    }
}

/// The first request runs the knot with its profile: the instructions are the
/// goal and the prompt, provider, model, tools and timeout are those of the
/// profile as it was first loaded, and the persona is that of the profile as it
/// was loaded again. It is made in no session.
#[verifier::spinoff_prover]
#[verifier::rlimit(40)]
pub proof fn knots_run_with_their_profile(
    store: Map<Seq<char>, LoomView>,
    rig_dir: Seq<char>,
    delay: TimeSpan,
    event: StrandEventView,
    io: ProcessIo,
    at: int,
)
    requires
        comes_to_a_run(store, event, io),
        0 <= at < store[event.loom_id].knots.len(),
        store[event.loom_id].knots[at].id == event.knot_id,
        forall|j: int|
            0 <= j < at ==> (#[trigger] store[event.loom_id].knots[j]).id != event.knot_id,
    ensures
        ({
            let effects = process(store, rig_dir, delay, event, io);
            let knot = store[event.loom_id].knots[at];
            let settings = io.profile->Ok_0->0;
            let request = effects.runner[0]->ExecuteWithConfig_request;
            &&& effects.runner.len() > 0
            &&& effects.runner[0] is ExecuteWithConfig
            &&& effects.runner[0]->ExecuteWithConfig_answer == io.first.answer
            &&& request.agent_config == (AgentConfigView {
                goal: knot.instructions,
                provider: settings.provider,
                model: settings.model,
                tools: settings.tools,
                extra_args: Seq::empty(),
                thinking_level: None,
                ctx_wrap_up_limit: None,
            })
            &&& request.profile_prompt == io.again->Ok_0->0.profile_prompt
            &&& !(event.kind is Deleted) ==> request.prompt == knot.instructions
            &&& event.kind is Deleted ==> (knot.instructions + "\n\n"@
                + "This file was deleted. There may be git history to help understand the file scope if you need to rectify downstream references due to this deletion."@).is_prefix_of(
            request.prompt)
            &&& match settings.timeout {
                None => request.timeout is None,
                Some(secs) => request.timeout is Some && request.timeout->0.nanos == (if secs
                    <= 30 {
                    secs * 1_000_000_000
                } else {
                    30_000_000_000
                }),
            }
            &&& effects.profiles == seq![
                ProfileCall::Get { name: knot.agent_profile_ref, answer: io.profile },
                ProfileCall::Get { name: knot.agent_profile_ref, answer: io.again },
            ]
        }),
{
    let loom = store[event.loom_id];
    the_named_knot_is_found(loom, event.knot_id, at);
    let effects = process(store, rig_dir, delay, event, io);
    let settings = io.profile->Ok_0->0;
    let profile = io.again->Ok_0->0;
    let job = Job {
        loom_id: event.loom_id,
        knot: loom.knots[at],
        strand_path: event.strand_path,
        kind: event.kind,
        tie_off_path: tie_off_path(rig_dir, event.loom_id, event.knot_id),
    };
    let plan = plan_for(job, profile, profile_timeout(settings), delay);
    let config = config_for(job.knot, settings);
    let prompt = prompt_for(job, io.history);
    session_resume::first_requests_are_made_as_planned(
        PlanView { start: io.start, ..plan },
        config,
        prompt,
        None,
        io.first,
        io.ios,
    );
    let run = job_run(job, config, profile, profile_timeout(settings), delay, io);
    assert(effects.runner =~= run.calls);
    assert(effects.profiles =~= seq![
        ProfileCall::Get { name: job.knot.agent_profile_ref, answer: io.profile },
        ProfileCall::Get { name: job.knot.agent_profile_ref, answer: io.again },
    ]);
}

/// An event whose loom or knot is missing is refused, and nothing is done.
pub proof fn unknown_strands_are_refused(
    store: Map<Seq<char>, LoomView>,
    rig_dir: Seq<char>,
    delay: TimeSpan,
    event: StrandEventView,
    io: ProcessIo,
)
    requires
        store.contains_key(event.loom_id) ==> forall|j: int|
            0 <= j < store[event.loom_id].knots.len() ==> (#[trigger] store[event.loom_id].knots[j]).id
                != event.knot_id,
    ensures
        ({
            let effects = process(store, rig_dir, delay, event, io);
            &&& effects.acts.len() == 0
            &&& effects.log.len() == 0
            &&& effects.runner.len() == 0
            &&& effects.sink.len() == 0
            &&& effects.profiles.len() == 0
            &&& effects.rig.len() == 0
            &&& effects.git.len() == 0
            &&& effects.inspected.len() == 0
            &&& effects.pauses.len() == 0
            &&& !store.contains_key(event.loom_id) ==> effects.result == Err::<
                (),
                PortErrorView,
            >(PortErrorView::LoomNotFound(event.loom_id))
            &&& store.contains_key(event.loom_id) ==> effects.result == Err::<(), PortErrorView>(
                PortErrorView::KnotStatusDeriveFailed(
                    "knot '"@ + event.knot_id + "' not found in loom '"@ + event.loom_id + "'"@,
                ),
            )
        }),
{
    if store.contains_key(event.loom_id) && store[event.loom_id].position(event.knot_id) is Some {
        let loom = store[event.loom_id];
        assert(loom.first_at(event.knot_id, loom.position(event.knot_id)->0));
    }
}

/// A strand's file is looked at once, before anything else, unless the strand
/// was deleted, when it is not looked at. What is binary or missing is set aside
/// with a note in the log that says so, but for a known temporary file, which
/// is set aside in silence; whether the log takes the note is the result.
#[verifier::spinoff_prover]
#[verifier::rlimit(40)]
pub proof fn strands_are_looked_at_first(
    store: Map<Seq<char>, LoomView>,
    rig_dir: Seq<char>,
    delay: TimeSpan,
    event: StrandEventView,
    io: ProcessIo,
    at: int,
)
    requires
        store.contains_key(event.loom_id),
        0 <= at < store[event.loom_id].knots.len(),
        store[event.loom_id].knots[at].id == event.knot_id,
        forall|j: int|
            0 <= j < at ==> (#[trigger] store[event.loom_id].knots[j]).id != event.knot_id,
    ensures
        ({
            let effects = process(store, rig_dir, delay, event, io);
            &&& event.kind is Deleted ==> effects.inspected.len() == 0
            &&& !(event.kind is Deleted) ==> {
                &&& effects.inspected == seq![(event.strand_path, io.content)]
                &&& effects.acts.len() > 0
                &&& effects.acts[0] == Act::Look(event.strand_path, io.content)
            }
            &&& !(event.kind is Deleted) && io.content is Binary ==> {
                &&& effects.log == seq![
                    LoomLogCall::Append {
                        fact: LoomFact::StrandIgnored {
                            loom_id: event.loom_id,
                            knot_id: event.knot_id,
                            strand_path: event.strand_path,
                            reason: "binary file"@,
                        },
                        stamped: true,
                        answer: io.set_aside,
                    },
                ]
                &&& effects.result == io.set_aside
                &&& effects.acts.len() == 2
            }
            &&& !(event.kind is Deleted) && io.content is Missing && !io.content->known_temp ==> {
                &&& effects.log == seq![
                    LoomLogCall::Append {
                        fact: LoomFact::StrandSkipped {
                            loom_id: event.loom_id,
                            knot_id: event.knot_id,
                            strand_path: event.strand_path,
                            reason: "missing file (unknown pattern)"@,
                        },
                        stamped: true,
                        answer: io.set_aside,
                    },
                ]
                &&& effects.result == io.set_aside
                &&& effects.acts.len() == 2
            }
            &&& !(event.kind is Deleted) && io.content is Missing && io.content->known_temp ==> {
                &&& effects.log.len() == 0
                &&& effects.result is Ok
                &&& effects.acts.len() == 1
            }
        }),
{
    let loom = store[event.loom_id];
    the_named_knot_is_found(loom, event.knot_id, at);
    let effects = process(store, rig_dir, delay, event, io);
    if !(event.kind is Deleted) {
        assert(effects.inspected =~= seq![(event.strand_path, io.content)]);
    }
    if !(event.kind is Deleted) && io.content is Binary {
        assert(effects.log =~= seq![
            LoomLogCall::Append {
                fact: LoomFact::StrandIgnored {
                    loom_id: event.loom_id,
                    knot_id: event.knot_id,
                    strand_path: event.strand_path,
                    reason: "binary file"@,
                },
                stamped: true,
                answer: io.set_aside,
            },
        ]);
    }
    if !(event.kind is Deleted) && io.content is Missing && !io.content->known_temp {
        assert(effects.log =~= seq![
            LoomLogCall::Append {
                fact: LoomFact::StrandSkipped {
                    loom_id: event.loom_id,
                    knot_id: event.knot_id,
                    strand_path: event.strand_path,
                    reason: "missing file (unknown pattern)"@,
                },
                stamped: true,
                answer: io.set_aside,
            },
        ]);
    }
}

/// A strand that is not set aside is logged as being processed before its
/// knot's profile is asked for; a log that refuses ends it there.
#[verifier::spinoff_prover]
#[verifier::rlimit(40)]
pub proof fn processing_is_logged_first(
    store: Map<Seq<char>, LoomView>,
    rig_dir: Seq<char>,
    delay: TimeSpan,
    event: StrandEventView,
    io: ProcessIo,
    at: int,
)
    requires
        store.contains_key(event.loom_id),
        0 <= at < store[event.loom_id].knots.len(),
        store[event.loom_id].knots[at].id == event.knot_id,
        forall|j: int|
            0 <= j < at ==> (#[trigger] store[event.loom_id].knots[j]).id != event.knot_id,
        event.kind is Deleted || io.content is Text || io.content is Unreadable,
    ensures
        ({
            let effects = process(store, rig_dir, delay, event, io);
            let start = LoomLogCall::Append {
                fact: LoomFact::KnotProcessing {
                    loom_id: event.loom_id,
                    knot_id: event.knot_id,
                    strand_path: event.strand_path,
                },
                stamped: true,
                answer: io.processing,
            };
            let first: int = if event.kind is Deleted {
                0
            } else {
                1
            };
            &&& effects.log.len() > 0
            &&& effects.log[0] == start
            &&& effects.acts.len() > first
            &&& effects.acts[first] == Act::Log(start)
            &&& io.processing is Err ==> {
                &&& effects.result == io.processing
                &&& effects.acts.len() == first + 1
                &&& effects.log.len() == 1
                &&& effects.profiles.len() == 0
                &&& effects.runner.len() == 0
                &&& effects.sink.len() == 0
                &&& effects.rig.len() == 0
                &&& effects.git.len() == 0
            }
            &&& io.processing is Ok ==> {
                &&& effects.profiles.len() > 0
                &&& effects.profiles[0] == (ProfileCall::Get {
                    name: store[event.loom_id].knots[at].agent_profile_ref,
                    answer: io.profile,
                })
            }
        }),
{
    the_named_knot_is_found(store[event.loom_id], event.knot_id, at);
    let effects = process(store, rig_dir, delay, event, io);
    if io.processing is Ok {
        assert(effects.profiles[0] == (ProfileCall::Get {
            name: store[event.loom_id].knots[at].agent_profile_ref,
            answer: io.profile,
        }));
    }
}

/// A strand whose knot's profile cannot be found is given up: the tie-off file,
/// the knot's failure and the processed strand all tell the same error, which
/// is the result whatever becomes of them. No agent is run and nothing is
/// committed. A profile that is gone when it is loaded again is the error alone.
#[verifier::spinoff_prover]
#[verifier::rlimit(40)]
pub proof fn missing_profiles_are_told(
    store: Map<Seq<char>, LoomView>,
    rig_dir: Seq<char>,
    delay: TimeSpan,
    event: StrandEventView,
    io: ProcessIo,
    at: int,
)
    requires
        store.contains_key(event.loom_id),
        0 <= at < store[event.loom_id].knots.len(),
        store[event.loom_id].knots[at].id == event.knot_id,
        forall|j: int|
            0 <= j < at ==> (#[trigger] store[event.loom_id].knots[j]).id != event.knot_id,
        event.kind is Deleted || io.content is Text || io.content is Unreadable,
        io.processing is Ok,
    ensures
        ({
            let effects = process(store, rig_dir, delay, event, io);
            let name = store[event.loom_id].knots[at].agent_profile_ref;
            let why = match io.profile {
                Err(e) => e.display(),
                Ok(_) => name,
            };
            let message = "agent profile '"@ + why + "' not found"@;
            let lost = io.profile is Err || io.profile->Ok_0 is None;
            &&& lost ==> {
                &&& effects.result == Err::<(), PortErrorView>(
                    PortErrorView::ProfileNotFound(why),
                )
                &&& effects.runner.len() == 0
                &&& effects.git.len() == 0
                &&& effects.rig.len() == 0
                &&& effects.profiles.len() == 1
                &&& effects.sink.len() == 1
                &&& effects.sink[0] == (SinkCall::Append {
                    tie_off: TieOffView {
                        content: "Processing failed: "@ + message,
                        path: tie_off_path(rig_dir, event.loom_id, event.knot_id),
                        status: TieOffStatus::Failed,
                        knot_name: Some(event.knot_id),
                        event_type: Some(events::kind_label(event.kind)),
                        strand_path: Some(event.strand_path),
                        timestamp: None,
                    },
                    answer: io.tie_off,
                })
                &&& effects.log.len() == 3
                &&& effects.log[1] == (LoomLogCall::Append {
                    fact: LoomFact::KnotFailed {
                        loom_id: event.loom_id,
                        knot_id: event.knot_id,
                        strand_path: event.strand_path,
                        error: message,
                    },
                    stamped: true,
                    answer: io.knot,
                })
                &&& effects.log[2] == (LoomLogCall::Append {
                    fact: LoomFact::StrandProcessed {
                        loom_id: event.loom_id,
                        strand_path: event.strand_path,
                        error: Some(message),
                    },
                    stamped: true,
                    answer: io.strand,
                })
            }
            &&& !lost && (io.again is Err || io.again->Ok_0 is None) ==> {
                &&& effects.result == Err::<(), PortErrorView>(
                    PortErrorView::ProfileNotFound(
                        match io.again {
                            Err(e) => e.display(),
                            Ok(_) => name,
                        },
                    ),
                )
                &&& effects.runner.len() == 0
                &&& effects.sink.len() == 0
                &&& effects.log.len() == 1
                &&& effects.git.len() == 0
                &&& effects.rig.len() == 0
            }
        }),
{
    the_named_knot_is_found(store[event.loom_id], event.knot_id, at);
}

/// The run that an event comes to, over what the event, the knot and the
/// profile say.
pub open spec fn event_run(
    knot: KnotView,
    delay: TimeSpan,
    event: StrandEventView,
    prompt: Seq<char>,
    io: ProcessIo,
) -> Run {
    let settings = io.profile->Ok_0->0;
    session_resume::whole_run(
        PlanView {
            subject: Subject {
                loom_id: event.loom_id,
                knot_id: event.knot_id,
                strand_path: event.strand_path,
            },
            strand_file_ref: match event.kind {
                KnotEventType::Created => Some(event.strand_path),
                KnotEventType::Modified => Some(event.strand_path),
                KnotEventType::Deleted => None,
            },
            profile_prompt: io.again->Ok_0->0.profile_prompt,
            event_type: match event.kind {
                KnotEventType::Created => "Created"@,
                KnotEventType::Modified => "Modified"@,
                KnotEventType::Deleted => "Deleted"@,
            },
            knot_name: Some(event.knot_id),
            budget: match settings.timeout {
                Some(secs) => Some(TimeSpan { nanos: (secs * 1_000_000_000) as u128 }),
                None => None,
            },
            delay,
            start: io.start,
        },
        AgentConfigView {
            goal: knot.instructions,
            provider: settings.provider,
            model: settings.model,
            tools: settings.tools,
            extra_args: Seq::empty(),
            thinking_level: None,
            ctx_wrap_up_limit: None,
        },
        prompt,
        None,
        io.first,
        io.ios,
    )
}

/// The tie-off of an event, with a content and a status.
pub open spec fn event_tie_off(
    rig_dir: Seq<char>,
    event: StrandEventView,
    content: Seq<char>,
    status: TieOffStatus,
) -> TieOffView {
    TieOffView {
        content,
        path: tie_off_path(rig_dir, event.loom_id, event.knot_id),
        status,
        knot_name: Some(event.knot_id),
        event_type: Some(
            match event.kind {
                KnotEventType::Created => "Created"@,
                KnotEventType::Modified => "Modified"@,
                KnotEventType::Deleted => "Deleted"@,
            },
        ),
        strand_path: Some(event.strand_path),
        timestamp: None,
    }
}

#[verifier::spinoff_prover]
#[verifier::rlimit(50)]
proof fn events_come_to_their_run(
    store: Map<Seq<char>, LoomView>,
    rig_dir: Seq<char>,
    delay: TimeSpan,
    event: StrandEventView,
    io: ProcessIo,
    at: int,
) -> (job: Job)
    requires
        comes_to_a_run(store, event, io),
        0 <= at < store[event.loom_id].knots.len(),
        store[event.loom_id].knots[at].id == event.knot_id,
        forall|j: int|
            0 <= j < at ==> (#[trigger] store[event.loom_id].knots[j]).id != event.knot_id,
    ensures
        job == (Job {
            loom_id: event.loom_id,
            knot: store[event.loom_id].knots[at],
            strand_path: event.strand_path,
            kind: event.kind,
            tie_off_path: tie_off_path(rig_dir, event.loom_id, event.knot_id),
        }),
        ({
            let effects = process(store, rig_dir, delay, event, io);
            let run = event_run(job.knot, delay, event, prompt_for(job, io.history), io);
            let close = match run.result {
                Ok(output) => complete(job, output.stdout, io),
                Err(error) => fail(job, error, io),
            };
            let reads = read_history(job, io).sink;
            &&& effects.runner == run.calls
            &&& effects.log.len() == 1 + run.log.len() + close.log.len()
            &&& effects.log.skip(1 + run.log.len() as int) == close.log
            &&& effects.sink == reads + close.sink
            &&& effects.rig == close.rig
            &&& effects.git == close.git
            &&& effects.result == close.result
        }),
{
    let loom = store[event.loom_id];
    the_named_knot_is_found(loom, event.knot_id, at);
    let job = Job {
        loom_id: event.loom_id,
        knot: loom.knots[at],
        strand_path: event.strand_path,
        kind: event.kind,
        tie_off_path: tie_off_path(rig_dir, event.loom_id, event.knot_id),
    };
    let effects = process(store, rig_dir, delay, event, io);
    let settings = io.profile->Ok_0->0;
    let run = event_run(job.knot, delay, event, prompt_for(job, io.history), io);
    assert(run == job_run(
        job,
        config_for(job.knot, settings),
        io.again->Ok_0->0,
        profile_timeout(settings),
        delay,
        io,
    ));
    let close = match run.result {
        Ok(output) => complete(job, output.stdout, io),
        Err(error) => fail(job, error, io),
    };
    assert(effects.runner =~= run.calls);
    assert(effects.log.skip(1 + run.log.len() as int) =~= close.log);
    assert(effects.sink =~= read_history(job, io).sink + close.sink);
    assert(effects.rig =~= close.rig);
    assert(effects.git =~= close.git);
    job
}

/// A response becomes the tie-off: it is appended to the knot's tie-off file as
/// it is, then the knot's completion and the processed strand are logged, then
/// the work is committed where the knot is versioned. Each step is taken only
/// once the one before succeeded, and the first that fails is the result; what
/// git answers is not.
#[verifier::spinoff_prover]
#[verifier::rlimit(50)]
pub proof fn responses_become_tie_offs(
    store: Map<Seq<char>, LoomView>,
    rig_dir: Seq<char>,
    delay: TimeSpan,
    event: StrandEventView,
    io: ProcessIo,
    at: int,
    output: crate::ports::AgentOutputView,
)
    requires
        comes_to_a_run(store, event, io),
        0 <= at < store[event.loom_id].knots.len(),
        store[event.loom_id].knots[at].id == event.knot_id,
        forall|j: int|
            0 <= j < at ==> (#[trigger] store[event.loom_id].knots[j]).id != event.knot_id,
        ({
            let runner = process(store, rig_dir, delay, event, io).runner;
            runner.last()->ExecuteWithConfig_answer == Ok::<
                crate::ports::AgentOutputView,
                PortErrorView,
            >(output)
        }),
        !text::blank(output.stdout),
    ensures
        ({
            let effects = process(store, rig_dir, delay, event, io);
            let knot = store[event.loom_id].knots[at];
            let completed = LoomLogCall::Append {
                fact: LoomFact::KnotCompleted {
                    loom_id: event.loom_id,
                    knot_id: event.knot_id,
                    strand_path: event.strand_path,
                    tie_off_path: tie_off_path(rig_dir, event.loom_id, event.knot_id),
                },
                stamped: true,
                answer: io.knot,
            };
            let processed = LoomLogCall::Append {
                fact: LoomFact::StrandProcessed {
                    loom_id: event.loom_id,
                    strand_path: event.strand_path,
                    error: None,
                },
                stamped: true,
                answer: io.strand,
            };
            let commit = GitCall::Commit {
                loom_id: event.loom_id,
                knot_id: event.knot_id,
                strand_path: event.strand_path,
                event_type: match event.kind {
                    KnotEventType::Created => "Created"@,
                    KnotEventType::Modified => "Modified"@,
                    KnotEventType::Deleted => "Deleted"@,
                },
                tie_off_content: output.stdout,
                answer: io.commit,
            };
            let n = effects.log.len() as int;
            &&& effects.sink.len() > 0
            &&& effects.sink.last() == (SinkCall::Append {
                tie_off: event_tie_off(rig_dir, event, output.stdout, TieOffStatus::Produced),
                answer: io.tie_off,
            })
            &&& effects.rig.len() == 0
            &&& io.tie_off is Err ==> effects.result == io.tie_off && effects.git.len() == 0
            &&& io.tie_off is Ok && io.knot is Err ==> {
                &&& effects.result == io.knot
                &&& n >= 2
                &&& effects.log[n - 1] == completed
                &&& effects.git.len() == 0
            }
            &&& io.tie_off is Ok && io.knot is Ok ==> {
                &&& n >= 3
                &&& effects.log[n - 2] == completed
                &&& effects.log[n - 1] == processed
                &&& io.strand is Err ==> effects.result == io.strand
                &&& io.strand is Ok ==> effects.result is Ok
            }
            &&& io.tie_off is Ok && io.knot is Ok && io.strand is Ok && knot.git_versioned
                ==> effects.git == seq![commit]
            &&& !knot.git_versioned || io.strand is Err ==> effects.git.len() == 0
        }),
{
    let job = events_come_to_their_run(store, rig_dir, delay, event, io, at);
    let prompt = prompt_for(job, io.history);
    let run = event_run(job.knot, delay, event, prompt, io);
    let settings = io.profile->Ok_0->0;
    let plan = plan_for(job, io.again->Ok_0->0, profile_timeout(settings), delay);
    session_resume::runs_end_for_a_reason(
        PlanView { start: io.start, ..plan },
        config_for(job.knot, settings),
        prompt,
        None,
        io.first,
        io.ios,
    );
    let effects = process(store, rig_dir, delay, event, io);
    let close = complete(job, output.stdout, io);
    assert(run.result == Ok::<crate::ports::AgentOutputView, PortErrorView>(output));
    assert(effects.sink.last() == close.sink[0]);
    let n = effects.log.len() as int;
    if close.log.len() > 0 {
        assert(effects.log[n - 1] == close.log.last());
    }
    if close.log.len() > 1 {
        assert(effects.log[n - 2] == close.log[close.log.len() - 2]);
    }
    if close.git.len() > 0 {
        assert(effects.git =~= seq![
            GitCall::Commit {
                loom_id: event.loom_id,
                knot_id: event.knot_id,
                strand_path: event.strand_path,
                event_type: events::kind_label(event.kind),
                tie_off_content: output.stdout,
                answer: io.commit,
            },
        ]);
    }
}

/// A run without a response fails the knot, not the processing: the knot's
/// failure and the processed strand tell the run's error, and before them the
/// rig's log tells it where the run timed out, the tie-off file where it did
/// not. Nothing is committed. The result is whether the loom's log took both.
#[verifier::spinoff_prover]
#[verifier::rlimit(50)]
pub proof fn failures_are_told(
    store: Map<Seq<char>, LoomView>,
    rig_dir: Seq<char>,
    delay: TimeSpan,
    event: StrandEventView,
    io: ProcessIo,
    at: int,
)
    requires
        comes_to_a_run(store, event, io),
        0 <= at < store[event.loom_id].knots.len(),
        store[event.loom_id].knots[at].id == event.knot_id,
        forall|j: int|
            0 <= j < at ==> (#[trigger] store[event.loom_id].knots[j]).id != event.knot_id,
        ({
            let runner = process(store, rig_dir, delay, event, io).runner;
            let last = runner.last()->ExecuteWithConfig_answer;
            last is Err || text::blank(last->Ok_0.stdout)
        }),
    ensures
        ({
            let effects = process(store, rig_dir, delay, event, io);
            let knot = store[event.loom_id].knots[at];
            let prompt = effects.runner[0]->ExecuteWithConfig_request.prompt;
            let run = event_run(knot, delay, event, prompt, io);
            let error = run.result->Err_0;
            let failed = LoomLogCall::Append {
                fact: LoomFact::KnotFailed {
                    loom_id: event.loom_id,
                    knot_id: event.knot_id,
                    strand_path: event.strand_path,
                    error: error.display(),
                },
                stamped: true,
                answer: io.knot,
            };
            let processed = LoomLogCall::Append {
                fact: LoomFact::StrandProcessed {
                    loom_id: event.loom_id,
                    strand_path: event.strand_path,
                    error: Some(error.display()),
                },
                stamped: true,
                answer: io.strand,
            };
            let n = effects.log.len() as int;
            let reads: int = if event.kind is Deleted {
                1
            } else {
                0
            };
            &&& run.result is Err
            &&& effects.git.len() == 0
            &&& error is Timeout ==> {
                &&& effects.sink.len() == reads
                &&& effects.rig == seq![
                    RigLogCall::Append {
                        fact: RigFact::TimeoutExceeded {
                            loom_id: event.loom_id,
                            knot_id: event.knot_id,
                            strand_path: event.strand_path,
                            error: error.display(),
                        },
                        stamped: true,
                        answer: io.rig,
                    },
                ]
            }
            &&& !(error is Timeout) ==> {
                &&& effects.rig.len() == 0
                &&& effects.sink.len() == reads + 1
                &&& effects.sink.last() == (SinkCall::Append {
                    tie_off: event_tie_off(
                        rig_dir,
                        event,
                        "Processing failed: "@ + error.display(),
                        TieOffStatus::Failed,
                    ),
                    answer: io.tie_off,
                })
            }
            &&& io.knot is Err ==> n >= 2 && effects.log[n - 1] == failed && effects.result
                == io.knot
            &&& io.knot is Ok ==> {
                &&& n >= 3
                &&& effects.log[n - 2] == failed
                &&& effects.log[n - 1] == processed
                &&& effects.result == io.strand
            }
        }),
{
    let job = events_come_to_their_run(store, rig_dir, delay, event, io, at);
    let prompt = prompt_for(job, io.history);
    let run = event_run(job.knot, delay, event, prompt, io);
    let settings = io.profile->Ok_0->0;
    let plan = plan_for(job, io.again->Ok_0->0, profile_timeout(settings), delay);
    session_resume::runs_end_for_a_reason(
        PlanView { start: io.start, ..plan },
        config_for(job.knot, settings),
        prompt,
        None,
        io.first,
        io.ios,
    );
    session_resume::first_requests_are_made_as_planned(
        PlanView { start: io.start, ..plan },
        config_for(job.knot, settings),
        prompt,
        None,
        io.first,
        io.ios,
    );
    let effects = process(store, rig_dir, delay, event, io);
    let close = fail(job, run.result->Err_0, io);
    let n = effects.log.len() as int;
    assert(effects.runner[0]->ExecuteWithConfig_request.prompt == prompt);
    assert(effects.log[n - 1] == close.log.last());
    if close.log.len() > 1 {
        assert(effects.log[n - 2] == close.log[0]);
    }
    if run.result->Err_0 is Timeout {
        assert(close.rig =~= seq![
            RigLogCall::Append {
                fact: RigFact::TimeoutExceeded {
                    loom_id: event.loom_id,
                    knot_id: event.knot_id,
                    strand_path: event.strand_path,
                    error: run.result->Err_0.display(),
                },
                stamped: true,
                answer: io.rig,
            },
        ]);
    } else {
        assert(effects.sink.last() == close.sink[0]);
    }
}

/// Only for a deleted strand is the tie-off file read, once and before the
/// agent is run. What it holds of the strand goes behind the notice of the
/// deletion; a file that cannot be read, or that holds nothing of the strand,
/// adds nothing.
#[verifier::spinoff_prover]
#[verifier::rlimit(50)]
pub proof fn deletions_are_told_with_their_history(
    store: Map<Seq<char>, LoomView>,
    rig_dir: Seq<char>,
    delay: TimeSpan,
    event: StrandEventView,
    io: ProcessIo,
    at: int,
)
    requires
        comes_to_a_run(store, event, io),
        0 <= at < store[event.loom_id].knots.len(),
        store[event.loom_id].knots[at].id == event.knot_id,
        forall|j: int|
            0 <= j < at ==> (#[trigger] store[event.loom_id].knots[j]).id != event.knot_id,
    ensures
        ({
            let effects = process(store, rig_dir, delay, event, io);
            let knot = store[event.loom_id].knots[at];
            let prompt = effects.runner[0]->ExecuteWithConfig_request.prompt;
            let notice = knot.instructions + "\n\n"@
                + "This file was deleted. There may be git history to help understand the file scope if you need to rectify downstream references due to this deletion."@;
            let told = tie_off_history::last_of(
                tie_off_history::about(
                    tie_off_history::sections(io.history->Ok_0),
                    event.strand_path,
                ),
                5,
            );
            &&& event.kind is Deleted ==> {
                &&& effects.sink.len() > 0
                &&& effects.sink[0] == (SinkCall::ReadContent {
                    path: tie_off_path(rig_dir, event.loom_id, event.knot_id),
                    answer: io.history,
                })
                &&& io.history is Err ==> prompt == notice
                &&& io.history is Ok && told.len() == 0 ==> prompt == notice
                &&& io.history is Ok && told.len() > 0 ==> prompt == notice + ("\n\nStrand: "@
                    + (if paths::file_name(event.strand_path) is Some {
                    paths::file_name(event.strand_path)->0
                } else {
                    Seq::empty()
                }) + "\nPrevious processing history (last 5 entries):\n\n"@ + sections_text(told))
            }
            &&& !(event.kind is Deleted) ==> forall|i: int|
                0 <= i < effects.sink.len() ==> !((#[trigger] effects.sink[i]) is ReadContent)
        }),
{
    let job = events_come_to_their_run(store, rig_dir, delay, event, io, at);
    let prompt = prompt_for(job, io.history);
    let settings = io.profile->Ok_0->0;
    let plan = plan_for(job, io.again->Ok_0->0, profile_timeout(settings), delay);
    session_resume::first_requests_are_made_as_planned(
        PlanView { start: io.start, ..plan },
        config_for(job.knot, settings),
        prompt,
        None,
        io.first,
        io.ios,
    );
    let effects = process(store, rig_dir, delay, event, io);
    assert(effects.runner[0]->ExecuteWithConfig_request.prompt == prompt);
    if event.kind is Deleted {
        let notice = job.knot.instructions + "\n\n"@
            + "This file was deleted. There may be git history to help understand the file scope if you need to rectify downstream references due to this deletion."@;
        assert(notice + Seq::<char>::empty() =~= notice);
        if io.history is Err {
            nothing_is_known_of_an_empty_file(event.strand_path);
        }
    }
}

/// An empty tie-off file has no sections about a strand.
proof fn nothing_is_known_of_an_empty_file(strand_path: Seq<char>)
    ensures
        tie_off_history::last_of(
            tie_off_history::about(tie_off_history::sections(Seq::empty()), strand_path),
            HISTORY_LENGTH as nat,
        ).len() == 0,
{
    reveal_with_fuel(tie_off_history::sections_from, 3);
    reveal_with_fuel(tie_off_history::lines, 2);
    reveal_with_fuel(tie_off_history::about, 2);
}

/// The history tells every section in its place: who was triggered by what, on
/// which strand and when, and the body where there is one.
pub proof fn histories_tell_each_section(sections: Seq<TieOffSectionView>, i: int)
    requires
        0 <= i < sections.len(),
    ensures
        ({
            let section = sections[i];
            let head = "## "@ + section.knot_name + " triggered by "@ + section.event_type + " "@
                + section.strand_path + "\nTimestamp: "@ + section.timestamp + "\n"@;
            let told = if section.body.len() > 0 {
                head + (section.body + "\n\n"@)
            } else {
                head
            };
            sections_text(sections) == sections_text(sections.take(i)) + told + sections_text(
                sections.skip(i + 1),
            )
        }),
    decreases sections.len(),
{
    let n = sections.len() as int;
    let section = sections[i];
    let head = "## "@ + section.knot_name + " triggered by "@ + section.event_type + " "@
        + section.strand_path + "\nTimestamp: "@ + section.timestamp + "\n"@;
    assert(head + Seq::<char>::empty() =~= head);
    if i == n - 1 {
        assert(sections.drop_last() =~= sections.take(i));
        assert(sections.skip(n) =~= Seq::empty());
        assert(sections_text(sections) =~= sections_text(sections.take(i)) + section_text(section)
            + sections_text(sections.skip(i + 1)));
    } else {
        let before = sections.drop_last();
        histories_tell_each_section(before, i);
        assert(before.take(i) =~= sections.take(i));
        assert(before.skip(i + 1) =~= sections.skip(i + 1).drop_last());
        assert(sections.skip(i + 1).last() == sections.last());
        assert(sections_text(sections) =~= sections_text(sections.take(i)) + section_text(section)
            + sections_text(sections.skip(i + 1)));
    }
}

/// Every knot has its own tie-off file, in its own directory below its loom's
/// below the rig's tie-offs.
pub proof fn tie_off_files_are_per_knot(rig_dir: Seq<char>, loom_id: Seq<char>, knot_id: Seq<char>)
    requires
        rig_dir.len() > 0,
        rig_dir.last() != '/',
        loom_id.len() > 0,
        !loom_id.contains('/'),
        knot_id.len() > 0,
        !knot_id.contains('/'),
    ensures
        tie_off_path(rig_dir, loom_id, knot_id) == rig_dir + "/"@ + "tie-offs"@ + "/"@ + loom_id
            + "/"@ + knot_id + "/"@ + (knot_id + "-tie-off.md"@),
        paths::file_name(tie_off_path(rig_dir, loom_id, knot_id)) == Some(
            knot_id + "-tie-off.md"@,
        ),
{
    reveal_strlit("tie-offs");
    reveal_strlit("-tie-off.md");
    reveal_strlit(".");
    reveal_strlit("..");
    assert(loom_id[0] != '/' && loom_id.last() != '/');
    assert(knot_id[0] != '/' && knot_id.last() != '/');
    let name = knot_id + "-tie-off.md"@;
    assert(name[0] == knot_id[0]);
    assert(!name.contains('/')) by {
        assert forall|i: int| 0 <= i < name.len() implies name[i] != '/' by {
            if i < knot_id.len() {
                assert(name[i] == knot_id[i]);
            } else {
                assert(name[i] == "-tie-off.md"@[i - knot_id.len()]);
            }
        }
    }
    let tie_offs = paths::join(rig_dir, "tie-offs"@);
    let loom_dir = paths::join(tie_offs, loom_id);
    assert(loom_dir.last() == loom_id.last());
    let knot_dir = paths::join(loom_dir, knot_id);
    assert(knot_dir.last() == knot_id.last());
    paths::file_name_of_joined(knot_dir, name);
}

/// An event that comes to a run is processed in order: a strand that was not
/// deleted is looked at, the start is logged, the profile is loaded twice, the
/// history of a deleted strand is read, and then the agent is run, before
/// anything is told of the outcome.
#[verifier::spinoff_prover]
#[verifier::rlimit(80)]
pub proof fn events_are_processed_in_order(
    store: Map<Seq<char>, LoomView>,
    rig_dir: Seq<char>,
    delay: TimeSpan,
    event: StrandEventView,
    io: ProcessIo,
    at: int,
)
    requires
        comes_to_a_run(store, event, io),
        0 <= at < store[event.loom_id].knots.len(),
        store[event.loom_id].knots[at].id == event.knot_id,
        forall|j: int|
            0 <= j < at ==> (#[trigger] store[event.loom_id].knots[j]).id != event.knot_id,
    ensures
        ({
            let effects = process(store, rig_dir, delay, event, io);
            let knot = store[event.loom_id].knots[at];
            let prompt = effects.runner[0]->ExecuteWithConfig_request.prompt;
            let run = event_run(knot, delay, event, prompt, io);
            let start = Act::Log(
                LoomLogCall::Append {
                    fact: LoomFact::KnotProcessing {
                        loom_id: event.loom_id,
                        knot_id: event.knot_id,
                        strand_path: event.strand_path,
                    },
                    stamped: true,
                    answer: io.processing,
                },
            );
            let loaded = Act::Profile(
                ProfileCall::Get { name: knot.agent_profile_ref, answer: io.profile },
            );
            let again = Act::Profile(
                ProfileCall::Get { name: knot.agent_profile_ref, answer: io.again },
            );
            let ahead = if event.kind is Deleted {
                seq![
                    start,
                    loaded,
                    again,
                    Act::Sink(
                        SinkCall::ReadContent {
                            path: tie_off_path(rig_dir, event.loom_id, event.knot_id),
                            answer: io.history,
                        },
                    ),
                ]
            } else {
                seq![Act::Look(event.strand_path, io.content), start, loaded, again]
            };
            &&& (ahead + run.acts).is_prefix_of(effects.acts)
            &&& effects.runner == run.calls
            &&& effects.pauses == run.pauses
            &&& (effects.log.take(1) + run.log).is_prefix_of(effects.log)
        }),
{
    let job = events_come_to_their_run(store, rig_dir, delay, event, io, at);
    let prompt = prompt_for(job, io.history);
    let run = event_run(job.knot, delay, event, prompt, io);
    let settings = io.profile->Ok_0->0;
    let plan = plan_for(job, io.again->Ok_0->0, profile_timeout(settings), delay);
    session_resume::first_requests_are_made_as_planned(
        PlanView { start: io.start, ..plan },
        config_for(job.knot, settings),
        prompt,
        None,
        io.first,
        io.ios,
    );
    the_named_knot_is_found(store[event.loom_id], event.knot_id, at);
    let effects = process(store, rig_dir, delay, event, io);
    assert(effects.runner[0]->ExecuteWithConfig_request.prompt == prompt);
    let close = match run.result {
        Ok(output) => complete(job, output.stdout, io),
        Err(error) => fail(job, error, io),
    };
    assert(run == job_run(
        job,
        config_for(job.knot, settings),
        io.again->Ok_0->0,
        profile_timeout(settings),
        delay,
        io,
    ));
    assert(effects.pauses =~= run.pauses);
    assert(effects.acts.len() == 4 + run.acts.len() + close.acts.len());
    assert(effects.log =~= effects.log.take(1) + run.log + close.log);
}

/// A strand that is given up is told in order: the tie-off file first, then the
/// knot's failure, then the processed strand.
#[verifier::spinoff_prover]
#[verifier::rlimit(40)]
pub proof fn missing_profiles_are_told_in_order(
    store: Map<Seq<char>, LoomView>,
    rig_dir: Seq<char>,
    delay: TimeSpan,
    event: StrandEventView,
    io: ProcessIo,
    at: int,
)
    requires
        store.contains_key(event.loom_id),
        0 <= at < store[event.loom_id].knots.len(),
        store[event.loom_id].knots[at].id == event.knot_id,
        forall|j: int|
            0 <= j < at ==> (#[trigger] store[event.loom_id].knots[j]).id != event.knot_id,
        event.kind is Deleted || io.content is Text || io.content is Unreadable,
        io.processing is Ok,
        io.profile is Err || io.profile->Ok_0 is None,
    ensures
        ({
            let effects = process(store, rig_dir, delay, event, io);
            let n = effects.acts.len() as int;
            &&& n >= 5
            &&& effects.acts[n - 5] == Act::Log(effects.log[0])
            &&& effects.acts[n - 4] == Act::Profile(effects.profiles[0])
            &&& effects.acts[n - 3] == Act::Sink(effects.sink[0])
            &&& effects.acts[n - 2] == Act::Log(effects.log[1])
            &&& effects.acts[n - 1] == Act::Log(effects.log[2])
        }),
{
    the_named_knot_is_found(store[event.loom_id], event.knot_id, at);
}

} // verus!
