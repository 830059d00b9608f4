//! Looms, knots, strands, tie-offs and the rig state snapshot.
//!
//! Paths are held as text, separated by `/`.

use crate::text;
use crate::text::{clone_opt, clone_texts, join_texts};
use vstd::prelude::*;

verus! {

// ── Identifiers ────────────────────────────────────────────────────────

/// The unique name of a loom.
#[derive(Debug, PartialEq, Eq, Hash)]
pub struct LoomId(pub String);

/// The name of a knot, unique within its loom.
#[derive(Debug, PartialEq, Eq, Hash)]
pub struct KnotId(pub String);

/// The path of a strand file.
#[derive(Debug, PartialEq, Eq, Hash)]
pub struct StrandPath(pub String);

/// The path of a tie-off file.
#[derive(Debug, PartialEq, Eq, Hash)]
pub struct TieOffPath(pub String);

impl View for LoomId {
    type V = Seq<char>;

    open spec fn view(&self) -> Seq<char> {
        self.0@
    }
}

impl View for KnotId {
    type V = Seq<char>;

    open spec fn view(&self) -> Seq<char> {
        self.0@
    }
}

impl View for StrandPath {
    type V = Seq<char>;

    open spec fn view(&self) -> Seq<char> {
        self.0@
    }
}

impl View for TieOffPath {
    type V = Seq<char>;

    open spec fn view(&self) -> Seq<char> {
        self.0@
    }
}

impl Clone for LoomId {
    fn clone(&self) -> (copy: Self)
        ensures
            copy == *self,
    {
        LoomId(self.0.clone())
    }
}

impl Clone for KnotId {
    fn clone(&self) -> (copy: Self)
        ensures
            copy == *self,
    {
        KnotId(self.0.clone())
    }
}

impl Clone for StrandPath {
    fn clone(&self) -> (copy: Self)
        ensures
            copy == *self,
    {
        StrandPath(self.0.clone())
    }
}

impl Clone for TieOffPath {
    fn clone(&self) -> (copy: Self)
        ensures
            copy == *self,
    {
        TieOffPath(self.0.clone())
    }
}

// ── Looms and knots ────────────────────────────────────────────────────

/// What a knot asks of the agent.
#[derive(Debug, PartialEq, Eq)]
pub struct PromptTemplate {
    /// The knot's instructions.
    pub instructions: String,
}

/// One processing step of a loom: which strands it watches and what the
/// agent does with them.
#[derive(Debug, PartialEq, Eq)]
pub struct Knot {
    /// The knot's name.
    pub id: KnotId,
    /// Name of the agent profile the knot runs with.
    pub agent_profile_ref: String,
    /// The knot's instructions.
    pub prompt_template: PromptTemplate,
    /// Directory that is watched for strands.
    pub strand_dir: String,
    /// Whether a successful run is committed to git.
    pub git_versioned: bool,
}

/// A named set of knots.
#[derive(Debug, PartialEq, Eq)]
pub struct Loom {
    /// The loom's name.
    pub id: LoomId,
    /// The knots, in definition order.
    pub knots: Vec<Knot>,
}

/// Model of a [`Knot`].
pub struct KnotView {
    pub id: Seq<char>,
    pub agent_profile_ref: Seq<char>,
    pub instructions: Seq<char>,
    pub strand_dir: Seq<char>,
    pub git_versioned: bool,
}

/// Model of a [`Loom`].
pub struct LoomView {
    pub id: Seq<char>,
    pub knots: Seq<KnotView>,
}

impl View for Knot {
    type V = KnotView;

    open spec fn view(&self) -> KnotView {
        KnotView {
            id: self.id@,
            agent_profile_ref: self.agent_profile_ref@,
            instructions: self.prompt_template.instructions@,
            strand_dir: self.strand_dir@,
            git_versioned: self.git_versioned,
        }
    }
}

impl View for Loom {
    type V = LoomView;

    open spec fn view(&self) -> LoomView {
        LoomView { id: self.id@, knots: text::views(self.knots@) }
    }
}

impl Clone for Knot {
    fn clone(&self) -> (copy: Self)
        ensures
            copy == *self,
    {
        Knot {
            id: self.id.clone(),
            agent_profile_ref: self.agent_profile_ref.clone(),
            prompt_template: PromptTemplate {
                instructions: self.prompt_template.instructions.clone(),
            },
            strand_dir: self.strand_dir.clone(),
            git_versioned: self.git_versioned,
        }
    }
}

impl Clone for Loom {
    fn clone(&self) -> (copy: Self)
        ensures
            copy@ == self@,
            copy.knots@ == self.knots@,
    {
        let knots = self.knots.clone();
        assert(knots@ =~= self.knots@);
        Loom { id: self.id.clone(), knots }
    }
}

impl LoomView {
    /// The position of the first knot with the given name, if there is one.
    pub open spec fn position(self, knot_id: Seq<char>) -> Option<int> {
        if exists|i: int| self.first_at(knot_id, i) {
            Some(choose|i: int| self.first_at(knot_id, i))
        } else {
            None
        }
    }

    /// Whether the first knot with the given name stands at `i`.
    pub open spec fn first_at(self, knot_id: Seq<char>, i: int) -> bool {
        &&& 0 <= i < self.knots.len()
        &&& self.knots[i].id == knot_id
        &&& forall|j: int| 0 <= j < i ==> (#[trigger] self.knots[j]).id != knot_id
    }
}

impl Loom {
    /// The position of the first knot with the given name, if there is one.
    pub fn position(&self, knot_id: &KnotId) -> (pos: Option<usize>)
        ensures
            self@.position(knot_id@) == (match pos {
                Some(i) => Some(i as int),
                None => None,
            }),
            pos matches Some(i) ==> i < self.knots@.len() && self.knots@[i as int].id@ == knot_id@,
    {
        for i in 0..self.knots.len()
            invariant
                forall|j: int| 0 <= j < i ==> (#[trigger] self@.knots[j]).id != knot_id@,
        {
            if self.knots[i].id.0 == knot_id.0 {
                assert(self@.knots[i as int] == self.knots@[i as int]@);
                assert(self@.first_at(knot_id@, i as int));
                return Some(i);
            }
            assert(self@.knots[i as int] == self.knots@[i as int]@);
        }
        None
    }
}

// ── Agent configuration ────────────────────────────────────────────────

/// What an agent invocation runs with.
#[derive(Debug, PartialEq, Eq)]
pub struct AgentConfig {
    /// What the agent is asked to do.
    pub goal: String,
    /// The model provider.
    pub provider: String,
    /// The model.
    pub model: String,
    /// Tools the agent may use.
    pub tools: Vec<String>,
    /// Further command line arguments, in order.
    pub extra_args: Vec<String>,
    /// How much the model thinks, when set.
    pub thinking_level: Option<String>,
    /// Context size at which the agent is asked to wrap up, when set.
    pub ctx_wrap_up_limit: Option<u64>,
}

/// Model of an [`AgentConfig`].
pub struct AgentConfigView {
    pub goal: Seq<char>,
    pub provider: Seq<char>,
    pub model: Seq<char>,
    pub tools: Seq<Seq<char>>,
    pub extra_args: Seq<Seq<char>>,
    pub thinking_level: Option<Seq<char>>,
    pub ctx_wrap_up_limit: Option<u64>,
}

impl View for AgentConfig {
    type V = AgentConfigView;

    open spec fn view(&self) -> AgentConfigView {
        AgentConfigView {
            goal: self.goal@,
            provider: self.provider@,
            model: self.model@,
            tools: text::texts(self.tools@),
            extra_args: text::texts(self.extra_args@),
            thinking_level: text::opt_text(self.thinking_level),
            ctx_wrap_up_limit: self.ctx_wrap_up_limit,
        }
    }
}

impl Clone for AgentConfig {
    fn clone(&self) -> (copy: Self)
        ensures
            copy@ == self@,
    {
        AgentConfig {
            goal: self.goal.clone(),
            provider: self.provider.clone(),
            model: self.model.clone(),
            tools: clone_texts(&self.tools),
            extra_args: clone_texts(&self.extra_args),
            thinking_level: clone_opt(&self.thinking_level),
            ctx_wrap_up_limit: self.ctx_wrap_up_limit,
        }
    }
}

impl AgentConfigView {
    /// The configuration with further arguments behind those it has.
    pub open spec fn with_args(self, args: Seq<Seq<char>>) -> AgentConfigView {
        AgentConfigView { extra_args: self.extra_args + args, ..self }
    }

    /// The command line arguments: provider and model, the tools and the
    /// thinking level where they are set, then the further arguments.
    pub open spec fn cli_args(self) -> Seq<Seq<char>> {
        seq!["--provider"@, self.provider, "--model"@, self.model] + (if self.tools.len() == 0 {
            Seq::empty()
        } else {
            seq!["--tools"@, text::joined(self.tools, ","@)]
        }) + (match self.thinking_level {
            Some(level) => seq!["--thinking"@, level],
            None => Seq::empty(),
        }) + self.extra_args
    }
}

impl AgentConfig {
    /// Build the agent's command line arguments.
    ///
    /// The profile prompt and the knot's instructions are not among them:
    /// both reach the agent on its standard input.
    pub fn build_cli_args(&self) -> (args: Vec<String>)
        ensures
            text::texts(args@) == self@.cli_args(),
    {
        let mut args: Vec<String> = Vec::new();
        args.push("--provider".to_string());
        args.push(self.provider.clone());
        args.push("--model".to_string());
        args.push(self.model.clone());
        assert(text::texts(args@) =~= seq!["--provider"@, self.provider@, "--model"@, self.model@]);
        let ghost base = text::texts(args@);
        if self.tools.len() > 0 {
            args.push("--tools".to_string());
            args.push(join_texts(&self.tools, ","));
        }
        let ghost with_tools = base + (if self@.tools.len() == 0 {
            Seq::empty()
        } else {
            seq!["--tools"@, text::joined(self@.tools, ","@)]
        });
        assert(text::texts(args@) =~= with_tools);
        if let Some(level) = &self.thinking_level {
            args.push("--thinking".to_string());
            args.push(level.clone());
        }
        let ghost with_level = with_tools + (match self@.thinking_level {
            Some(level) => seq!["--thinking"@, level],
            None => Seq::empty(),
        });
        assert(text::texts(args@) =~= with_level);
        for i in 0..self.extra_args.len()
            invariant
                text::texts(args@) == with_level + self@.extra_args.take(i as int),
        {
            broadcast use text::texts_push;

            args.push(self.extra_args[i].clone());
            assert(text::texts(args@) =~= with_level + self@.extra_args.take(i + 1));
        }
        assert(self@.extra_args.take(self.extra_args.len() as int) =~= self@.extra_args);
        args
    }
}

/// A named agent persona, shared between knots.
#[derive(Debug, PartialEq, Eq)]
pub struct AgentProfile {
    /// The profile's name.
    pub name: String,
    /// The model provider.
    pub provider: String,
    /// The model.
    pub model: String,
    /// Tools the agent may use.
    pub tools: Vec<String>,
    /// The persona's prompt.
    pub profile_prompt: String,
    /// Session timeout in seconds, when set.
    pub timeout: Option<u64>,
}

/// Model of an [`AgentProfile`].
pub struct AgentProfileView {
    pub name: Seq<char>,
    pub provider: Seq<char>,
    pub model: Seq<char>,
    pub tools: Seq<Seq<char>>,
    pub profile_prompt: Seq<char>,
    pub timeout: Option<u64>,
}

impl View for AgentProfile {
    type V = AgentProfileView;

    open spec fn view(&self) -> AgentProfileView {
        AgentProfileView {
            name: self.name@,
            provider: self.provider@,
            model: self.model@,
            tools: text::texts(self.tools@),
            profile_prompt: self.profile_prompt@,
            timeout: self.timeout,
        }
    }
}

impl Clone for AgentProfile {
    fn clone(&self) -> (copy: Self)
        ensures
            copy@ == self@,
    {
        AgentProfile {
            name: self.name.clone(),
            provider: self.provider.clone(),
            model: self.model.clone(),
            tools: clone_texts(&self.tools),
            profile_prompt: self.profile_prompt.clone(),
            timeout: self.timeout,
        }
    }
}

// ── Tie-offs ───────────────────────────────────────────────────────────

/// How the run that wrote a tie-off ended.
#[derive(Debug, Clone, Copy, PartialEq, Eq, Structural)]
pub enum TieOffStatus {
    /// The agent produced a response.
    Produced,
    /// The run failed.
    Failed,
}

/// The output of one knot run.
#[derive(Debug, PartialEq, Eq)]
pub struct TieOff {
    /// The text to write.
    pub content: String,
    /// Where to write it.
    pub path: TieOffPath,
    /// How the run ended.
    pub status: TieOffStatus,
    /// The knot that ran, when known.
    pub knot_name: Option<String>,
    /// The kind of strand event, when known.
    pub event_type: Option<String>,
    /// The strand that was processed, when known.
    pub strand_path: Option<String>,
    /// When the run ended; set by the sink when absent.
    pub timestamp: Option<String>,
}

/// Model of a [`TieOff`].
pub struct TieOffView {
    pub content: Seq<char>,
    pub path: Seq<char>,
    pub status: TieOffStatus,
    pub knot_name: Option<Seq<char>>,
    pub event_type: Option<Seq<char>>,
    pub strand_path: Option<Seq<char>>,
    pub timestamp: Option<Seq<char>>,
}

impl View for TieOff {
    type V = TieOffView;

    open spec fn view(&self) -> TieOffView {
        TieOffView {
            content: self.content@,
            path: self.path@,
            status: self.status,
            knot_name: text::opt_text(self.knot_name),
            event_type: text::opt_text(self.event_type),
            strand_path: text::opt_text(self.strand_path),
            timestamp: text::opt_text(self.timestamp),
        }
    }
}

impl Clone for TieOff {
    fn clone(&self) -> (copy: Self)
        ensures
            copy == *self,
    {
        TieOff {
            content: self.content.clone(),
            path: self.path.clone(),
            status: self.status,
            knot_name: clone_opt(&self.knot_name),
            event_type: clone_opt(&self.event_type),
            strand_path: clone_opt(&self.strand_path),
            timestamp: clone_opt(&self.timestamp),
        }
    }
}

/// A configuration's arguments name its provider and its model, its tools and
/// its thinking level exactly where they are set, and end with the further
/// arguments in order. Goal and context limit are not among them.
pub proof fn configured_arguments_are_complete(config: AgentConfigView, i: int)
    ensures
        ({
            let args = config.cli_args();
            let tools: int = if config.tools.len() > 0 {
                2
            } else {
                0
            };
            let level: int = if config.thinking_level is Some {
                2
            } else {
                0
            };
            &&& args.len() == 4 + tools + level + config.extra_args.len()
            &&& args[0] == "--provider"@ && args[1] == config.provider
            &&& args[2] == "--model"@ && args[3] == config.model
            &&& tools == 2 ==> args[4] == "--tools"@ && args[5] == text::joined(
                config.tools,
                ","@,
            )
            &&& level == 2 ==> args[4 + tools] == "--thinking"@ && args[5 + tools]
                == config.thinking_level->0
            &&& 0 <= i < config.extra_args.len() ==> args[4 + tools + level + i]
                == config.extra_args[i]
        }),
{
}

/// Further arguments go behind those a configuration has, and change nothing
/// else of it.
pub proof fn further_arguments_go_last(config: AgentConfigView, args: Seq<Seq<char>>)
    ensures
        ({
            let with = config.with_args(args);
            &&& with.cli_args() == config.cli_args() + args
            &&& with.extra_args == config.extra_args + args
            &&& with.goal == config.goal
            &&& with.provider == config.provider
            &&& with.model == config.model
            &&& with.tools == config.tools
            &&& with.thinking_level == config.thinking_level
            &&& with.ctx_wrap_up_limit == config.ctx_wrap_up_limit
        }),
{
    assert(config.with_args(args).cli_args() =~= config.cli_args() + args);
}

/// A knot is found at the first place that holds its name, and is missing
/// exactly when no place holds it.
pub proof fn knots_are_found_by_name(loom: LoomView, knot_id: Seq<char>, i: int)
    requires
        0 <= i < loom.knots.len(),
        loom.knots[i].id == knot_id,
    ensures
        ({
            let at = loom.position(knot_id);
            &&& at is Some
            &&& 0 <= at->0 <= i
            &&& loom.knots[at->0].id == knot_id
        }),
    decreases i,
{
    if exists|j: int| 0 <= j < i && (#[trigger] loom.knots[j]).id == knot_id {
        let j = choose|j: int| 0 <= j < i && (#[trigger] loom.knots[j]).id == knot_id;
        knots_are_found_by_name(loom, knot_id, j);
    } else {
        assert(loom.first_at(knot_id, i));
    }
    let p = loom.position(knot_id)->0;
    assert(loom.first_at(knot_id, p));
    if i < p {
        assert(loom.knots[i].id != knot_id);
    }
}

/// A knot and a loom are seen in full: every field as it is, and every knot in
/// its place.
pub proof fn looms_are_seen_in_full(loom: Loom, i: int)
    ensures
        loom@.id == loom.id.0@,
        loom@.knots.len() == loom.knots@.len(),
        0 <= i < loom.knots@.len() ==> {
            let knot = loom.knots@[i];
            &&& loom@.knots[i].id == knot.id.0@
            &&& loom@.knots[i].agent_profile_ref == knot.agent_profile_ref@
            &&& loom@.knots[i].instructions == knot.prompt_template.instructions@
            &&& loom@.knots[i].strand_dir == knot.strand_dir@
            &&& loom@.knots[i].git_versioned == knot.git_versioned
        },
{
}

/// A profile is seen in full: every field as it is, and every tool in its
/// place.
pub proof fn profiles_are_seen_in_full(profile: AgentProfile, i: int)
    ensures
        profile@.name == profile.name@,
        profile@.provider == profile.provider@,
        profile@.model == profile.model@,
        profile@.profile_prompt == profile.profile_prompt@,
        profile@.timeout == profile.timeout,
        profile@.tools.len() == profile.tools@.len(),
        0 <= i < profile.tools@.len() ==> profile@.tools[i] == profile.tools@[i]@,
{
}

/// A tie-off is seen in full, and what it leaves open is left open.
pub proof fn tie_offs_are_seen_in_full(tie_off: TieOff)
    ensures
        tie_off@.content == tie_off.content@,
        tie_off@.path == tie_off.path.0@,
        tie_off@.status == tie_off.status,
        tie_off.knot_name is Some ==> tie_off@.knot_name == Some(tie_off.knot_name->0@),
        tie_off.knot_name is None ==> tie_off@.knot_name is None,
        tie_off.event_type is Some ==> tie_off@.event_type == Some(tie_off.event_type->0@),
        tie_off.event_type is None ==> tie_off@.event_type is None,
        tie_off.strand_path is Some ==> tie_off@.strand_path == Some(tie_off.strand_path->0@),
        tie_off.strand_path is None ==> tie_off@.strand_path is None,
        tie_off.timestamp is Some ==> tie_off@.timestamp == Some(tie_off.timestamp->0@),
        tie_off.timestamp is None ==> tie_off@.timestamp is None,
{
}

} // verus!
