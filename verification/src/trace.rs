//! One order over the calls on several ports.
//!
//! Each port has a record of its own, which says nothing of the calls on the
//! others. A trace joins them: each of its methods makes one call and notes it
//! behind the calls before, and nothing else adds to a trace. Where a contract
//! gives the trace beside the records, the order of all the calls is fixed.

use crate::clock;
use crate::entities::{
    AgentConfig, AgentProfile, KnotId, LoomId, StrandPath, TieOff, TieOffPath,
};
use crate::errors::PortError;
use crate::events::{LoomEvent, RigLogEvent};
use crate::outside;
use crate::outside::Outside;
use crate::ports;
use crate::ports::{
    AgentOutput, AgentProfileRepository, AgentRunner, EventSource, GitCall, GitVersioningPort,
    LoomLogCall, LoomLogPort, ProfileCall, RigLogCall, RigLogPort, RunRequest, RunnerCall, SinkCall,
    SourceCall, TieOffSink, WatchType,
};
use crate::text;
use crate::time::TimeSpan;
use crate::usecases::{StrandContent, StrandDir};
use vstd::prelude::*;

verus! {

/// A call on one of several ports.
pub enum Act {
    Log(LoomLogCall),
    Agent(RunnerCall),
    Sink(SinkCall),
    Profile(ProfileCall),
    Rig(RigLogCall),
    Git(GitCall),
    Source(SourceCall),
    /// A strand directory was seen to, and this became of it.
    Dir(Seq<char>, StrandDir),
    /// A strand was looked at, and held this.
    Look(Seq<char>, StrandContent),
    /// A wait, and the time it ended at.
    Pause(TimeSpan, TimeSpan),
}

/// Calls on a loom's log, in order.
pub open spec fn told(log: Seq<LoomLogCall>) -> Seq<Act> {
    log.map_values(|call: LoomLogCall| Act::Log(call))
}

/// Waits, in order.
pub open spec fn paused(pauses: Seq<(TimeSpan, TimeSpan)>) -> Seq<Act> {
    pauses.map_values(|pause: (TimeSpan, TimeSpan)| Act::Pause(pause.0, pause.1))
}

/// The calls made on several ports, in the order in which they were made.
pub struct Trace {
    record: Ghost<Seq<Act>>,
}

impl Trace {
    /// The calls so far.
    pub closed spec fn acts(&self) -> Seq<Act> {
        self.record@
    }

    /// A trace of nothing yet.
    pub fn new() -> (trace: Self)
        ensures
            trace.acts() == Seq::<Act>::empty(),
    {
        Trace { record: Ghost(Seq::empty()) }
    }

    /// Append an event to a loom's log.
    pub fn tell<L: LoomLogPort>(&mut self, log_port: &mut L, event: LoomEvent) -> (answer: Result<
        (),
        PortError,
    >)
        ensures
            ({
                let call = LoomLogCall::Append {
                    fact: event@.fact,
                    stamped: clock::utc_time(event@.timestamp),
                    answer: ports::done(answer),
                };
                &&& final(log_port).calls() == old(log_port).calls().push(call)
                &&& final(self).acts() == old(self).acts().push(Act::Log(call))
            }),
    {
        let answer = log_port.append(event);
        proof {
            self.record@ = self.record@.push(Act::Log(log_port.calls().last()));
        }
        answer
    }

    /// Open a loom's log.
    pub fn open_log<L: LoomLogPort>(&mut self, log_port: &mut L, loom_id: &LoomId) -> (answer:
        Result<(), PortError>)
        ensures
            ({
                let call = LoomLogCall::Open { loom_id: loom_id@, answer: ports::done(answer) };
                &&& final(log_port).calls() == old(log_port).calls().push(call)
                &&& final(self).acts() == old(self).acts().push(Act::Log(call))
            }),
    {
        let answer = log_port.open(loom_id);
        proof {
            self.record@ = self.record@.push(Act::Log(log_port.calls().last()));
        }
        answer
    }

    /// Append an event to the rig's log.
    pub fn tell_rig<G: RigLogPort>(&mut self, rig_log: &mut G, event: RigLogEvent) -> (answer:
        Result<(), PortError>)
        ensures
            ({
                let call = RigLogCall::Append {
                    fact: event@.fact,
                    stamped: clock::utc_time(event@.timestamp),
                    answer: ports::done(answer),
                };
                &&& final(rig_log).calls() == old(rig_log).calls().push(call)
                &&& final(self).acts() == old(self).acts().push(Act::Rig(call))
            }),
    {
        let answer = rig_log.append(event);
        proof {
            self.record@ = self.record@.push(Act::Rig(rig_log.calls().last()));
        }
        answer
    }

    /// Run the agent once.
    pub fn run<R: AgentRunner>(
        &mut self,
        agent_runner: &mut R,
        agent_config: &AgentConfig,
        strand_path: StrandPath,
        strand_file_ref: Option<StrandPath>,
        prompt: String,
        profile_prompt: String,
        event_type: String,
        knot_name: Option<String>,
        timeout: Option<TimeSpan>,
    ) -> (answer: Result<AgentOutput, PortError>)
        ensures
            ({
                let call = RunnerCall::ExecuteWithConfig {
                    request: RunRequest {
                        agent_config: agent_config@,
                        strand_path: strand_path@,
                        strand_file_ref: text::opt_view(strand_file_ref),
                        prompt: prompt@,
                        profile_prompt: profile_prompt@,
                        event_type: event_type@,
                        knot_name: text::opt_text(knot_name),
                        timeout,
                    },
                    answer: ports::answered(answer),
                };
                &&& final(agent_runner).calls() == old(agent_runner).calls().push(call)
                &&& final(self).acts() == old(self).acts().push(Act::Agent(call))
            }),
    {
        let answer = agent_runner.execute_with_config(
            agent_config,
            strand_path,
            strand_file_ref,
            prompt,
            profile_prompt,
            event_type,
            knot_name,
            timeout,
        );
        proof {
            self.record@ = self.record@.push(Act::Agent(agent_runner.calls().last()));
        }
        answer
    }

    /// Append to a tie-off file.
    pub fn tie<T: TieOffSink>(&mut self, sink: &mut T, tie_off: TieOff) -> (answer: Result<
        (),
        PortError,
    >)
        ensures
            ({
                let call = SinkCall::Append { tie_off: tie_off@, answer: ports::done(answer) };
                &&& final(sink).calls() == old(sink).calls().push(call)
                &&& final(self).acts() == old(self).acts().push(Act::Sink(call))
            }),
    {
        let answer = sink.append(tie_off);
        proof {
            self.record@ = self.record@.push(Act::Sink(sink.calls().last()));
        }
        answer
    }

    /// Read a tie-off file.
    pub fn read_back<T: TieOffSink>(&mut self, sink: &mut T, path: &TieOffPath) -> (answer: Result<
        String,
        PortError,
    >)
        ensures
            ({
                let call = SinkCall::ReadContent { path: path@, answer: ports::answered(answer) };
                &&& final(sink).calls() == old(sink).calls().push(call)
                &&& final(self).acts() == old(self).acts().push(Act::Sink(call))
            }),
    {
        let answer = sink.read_content(path);
        proof {
            self.record@ = self.record@.push(Act::Sink(sink.calls().last()));
        }
        answer
    }

    /// Ask for a profile.
    pub fn find_profile<P: AgentProfileRepository>(&mut self, profiles: &mut P, name: &str) -> (
    answer: Result<Option<AgentProfile>, PortError>)
        ensures
            ({
                let call = ProfileCall::Get { name: name@, answer: ports::answered_opt(answer) };
                &&& final(profiles).calls() == old(profiles).calls().push(call)
                &&& final(self).acts() == old(self).acts().push(Act::Profile(call))
            }),
    {
        let answer = profiles.get(name);
        proof {
            self.record@ = self.record@.push(Act::Profile(profiles.calls().last()));
        }
        answer
    }

    /// Commit what was written.
    pub fn commit<V: GitVersioningPort>(
        &mut self,
        git: &mut V,
        loom_id: &LoomId,
        knot_id: &KnotId,
        strand_path: &StrandPath,
        event_type: &str,
        tie_off_content: &str,
    ) -> (answer: Result<(), PortError>)
        ensures
            ({
                let call = GitCall::Commit {
                    loom_id: loom_id@,
                    knot_id: knot_id@,
                    strand_path: strand_path@,
                    event_type: event_type@,
                    tie_off_content: tie_off_content@,
                    answer: ports::done(answer),
                };
                &&& final(git).calls() == old(git).calls().push(call)
                &&& final(self).acts() == old(self).acts().push(Act::Git(call))
            }),
    {
        let answer = git.commit(loom_id, knot_id, strand_path, event_type, tie_off_content);
        proof {
            self.record@ = self.record@.push(Act::Git(git.calls().last()));
        }
        answer
    }

    /// Name the loom and knot that events from a directory are for.
    pub fn name_watch<E: EventSource>(
        &mut self,
        event_source: &mut E,
        dir: &str,
        loom_id: &LoomId,
        knot_id: &KnotId,
    )
        ensures
            ({
                let call = SourceCall::SetLoomIds {
                    path: dir@,
                    loom_id: loom_id@,
                    knot_id: knot_id@,
                };
                &&& final(event_source).calls() == old(event_source).calls().push(call)
                &&& final(self).acts() == old(self).acts().push(Act::Source(call))
            }),
    {
        event_source.set_loom_ids(dir, loom_id, knot_id);
        proof {
            self.record@ = self.record@.push(Act::Source(event_source.calls().last()));
        }
    }

    /// Start to watch a directory.
    pub fn watch<E: EventSource>(&mut self, event_source: &mut E, dir: &str) -> (answer: Result<
        (),
        PortError,
    >)
        ensures
            ({
                let call = SourceCall::Watch { path: dir@, answer: ports::done(answer) };
                &&& final(event_source).calls() == old(event_source).calls().push(call)
                &&& final(self).acts() == old(self).acts().push(Act::Source(call))
            }),
    {
        let answer = event_source.watch(dir);
        proof {
            self.record@ = self.record@.push(Act::Source(event_source.calls().last()));
        }
        answer
    }

    /// Stop to watch a directory.
    pub fn unwatch<E: EventSource>(&mut self, event_source: &mut E, dir: &str) -> (answer: Result<
        (),
        PortError,
    >)
        ensures
            ({
                let call = SourceCall::Unwatch { path: dir@, answer: ports::done(answer) };
                &&& final(event_source).calls() == old(event_source).calls().push(call)
                &&& final(self).acts() == old(self).acts().push(Act::Source(call))
            }),
    {
        let answer = event_source.unwatch(dir);
        proof {
            self.record@ = self.record@.push(Act::Source(event_source.calls().last()));
        }
        answer
    }

    /// Stop to watch a directory for one purpose.
    pub fn unwatch_with_type<E: EventSource>(
        &mut self,
        event_source: &mut E,
        dir: &str,
        watch_type: WatchType,
    ) -> (answer: Result<(), PortError>)
        ensures
            ({
                let call = SourceCall::UnwatchWithType {
                    path: dir@,
                    watch_type: watch_type@,
                    answer: ports::done(answer),
                };
                &&& final(event_source).calls() == old(event_source).calls().push(call)
                &&& final(self).acts() == old(self).acts().push(Act::Source(call))
            }),
    {
        let answer = event_source.unwatch_with_type(dir, watch_type);
        proof {
            self.record@ = self.record@.push(Act::Source(event_source.calls().last()));
        }
        answer
    }

    /// See to it that a strand directory exists.
    pub fn ensure_dir<D: Fn(&String) -> StrandDir>(
        &mut self,
        ensure_dir: &mut Outside<String, StrandDir, D>,
        dir: &String,
    ) -> (found: StrandDir)
        requires
            old(ensure_dir).ready(),
        ensures
            outside::asked(*old(ensure_dir), *final(ensure_dir), seq![(dir@, found)]),
            final(self).acts() == old(self).acts().push(Act::Dir(dir@, found)),
    {
        let found = ensure_dir.ask(dir);
        proof {
            let once = seq![(dir@, found)];
            assert(ensure_dir.calls() =~= old(ensure_dir).calls() + once);
            self.record@ = self.record@.push(Act::Dir(dir@, found));
        }
        found
    }

    /// Look at a strand.
    pub fn look<I: Fn(&StrandPath) -> StrandContent>(
        &mut self,
        inspect: &mut Outside<StrandPath, StrandContent, I>,
        strand_path: &StrandPath,
    ) -> (content: StrandContent)
        requires
            old(inspect).ready(),
        ensures
            outside::asked(*old(inspect), *final(inspect), seq![(strand_path@, content)]),
            final(self).acts() == old(self).acts().push(Act::Look(strand_path@, content)),
    {
        let content = inspect.ask(strand_path);
        proof {
            let once = seq![(strand_path@, content)];
            assert(inspect.calls() =~= old(inspect).calls() + once);
            self.record@ = self.record@.push(Act::Look(strand_path@, content));
        }
        content
    }

    /// Wait, and say what time it is then.
    pub fn pause<C: Fn(&TimeSpan) -> TimeSpan>(
        &mut self,
        clock: &mut Outside<TimeSpan, TimeSpan, C>,
        span: &TimeSpan,
    ) -> (now: TimeSpan)
        requires
            old(clock).ready(),
        ensures
            final(clock).calls() == old(clock).calls().push((*span, now)),
            final(clock).source() == old(clock).source(),
            final(clock).ready(),
            final(self).acts() == old(self).acts().push(Act::Pause(*span, now)),
    {
        let now = clock.ask(span);
        proof {
            self.record@ = self.record@.push(Act::Pause(*span, now));
        }
        now
    }
}

/// What was told and what was waited for appears in the record call by call and
/// wait by wait, in order, and nothing else does.
pub proof fn records_are_complete(
    log: Seq<LoomLogCall>,
    pauses: Seq<(TimeSpan, TimeSpan)>,
    i: int,
)
    ensures
        told(log).len() == log.len(),
        0 <= i < log.len() ==> told(log)[i] == Act::Log(log[i]),
        paused(pauses).len() == pauses.len(),
        0 <= i < pauses.len() ==> paused(pauses)[i] == Act::Pause(pauses[i].0, pauses[i].1),
{
}

} // verus!
