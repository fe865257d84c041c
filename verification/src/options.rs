//! Deployment-wide settings, and how the command line's flags become them.

use crate::error::NixError;
use crate::goal::Goal;
use crate::text::{parse_usize, parse_usize_spec, str_eq};
use vstd::prelude::*;
use vstd::string::*;

verus! {

/// Which way a closure is copied.
#[derive(Clone, Copy, Debug, PartialEq, Eq, Structural)]
pub enum CopyDirection {
    /// From this machine to the node.
    ToRemote,
    /// From the node to this machine.
    FromRemote,
}

/// What a host is told when it copies a closure.
#[derive(Clone, Copy, Debug, PartialEq, Eq, Structural)]
pub struct CopyOptions {
    /// Copy the outputs of a derivation along with it.
    pub include_outputs: bool,
    /// Let the receiving side fetch from its substituters.
    pub use_substitutes: bool,
    /// Compress the transport.
    pub gzip: bool,
}

/// The toggles of one deployment.
#[derive(Clone, Copy, Debug, PartialEq, Eq, Structural)]
pub struct Options {
    /// Use remote substituters while copying.
    pub substituters_push: bool,
    /// Compress the transport.
    pub gzip: bool,
    /// Upload keys before activation.
    pub upload_keys: bool,
    /// Keep a garbage-collector root for every built profile.
    pub create_gc_roots: bool,
    /// Replace an unknown profile on every node, whatever the node says.
    pub force_replace_unknown_profiles: bool,
}

impl Options {
    /// The settings of a deployment without any flag.
    pub open spec fn initial() -> Options {
        Options {
            substituters_push: true,
            gzip: true,
            upload_keys: true,
            create_gc_roots: false,
            force_replace_unknown_profiles: false,
        }
    }

    /// What the options let a host do when it copies a closure.
    pub open spec fn spec_to_copy_options(&self) -> CopyOptions {
        CopyOptions {
            include_outputs: true,
            use_substitutes: self.substituters_push,
            gzip: self.gzip,
        }
    }

    /// Sets whether remote substituters are used while copying.
    pub fn set_substituters_push(&mut self, val: bool)
        ensures
            *final(self) == (Options { substituters_push: val, ..*old(self) }),
    {
        self.substituters_push = val;
    }

    /// Sets whether the transport is compressed.
    pub fn set_gzip(&mut self, val: bool)
        ensures
            *final(self) == (Options { gzip: val, ..*old(self) }),
    {
        self.gzip = val;
    }

    /// Sets whether keys are uploaded before activation.
    pub fn set_upload_keys(&mut self, val: bool)
        ensures
            *final(self) == (Options { upload_keys: val, ..*old(self) }),
    {
        self.upload_keys = val;
    }

    /// Sets whether built profiles get a garbage-collector root.
    pub fn set_create_gc_roots(&mut self, val: bool)
        ensures
            *final(self) == (Options { create_gc_roots: val, ..*old(self) }),
    {
        self.create_gc_roots = val;
    }

    /// Sets whether unknown profiles are replaced on every node.
    pub fn set_force_replace_unknown_profiles(&mut self, val: bool)
        ensures
            *final(self) == (Options { force_replace_unknown_profiles: val, ..*old(self) }),
    {
        self.force_replace_unknown_profiles = val;
    }

    /// What a host is told when it copies a closure under these options.
    #[verifier::when_used_as_spec(spec_to_copy_options)]
    pub fn to_copy_options(&self) -> (r: CopyOptions)
        ensures
            r == self.spec_to_copy_options(),
    {
        CopyOptions {
            include_outputs: true,
            use_substitutes: self.substituters_push,
            gzip: self.gzip,
        }
    }
}

impl Default for Options {
    fn default() -> (r: Options)
        ensures
            r == Options::initial(),
    {
        Options {
            substituters_push: true,
            gzip: true,
            upload_keys: true,
            create_gc_roots: false,
            force_replace_unknown_profiles: false,
        }
    }
}

/// How many nodes may be worked on at once. Zero lifts a limit.
#[derive(Clone, Copy, Debug, PartialEq, Eq, Structural)]
pub struct ParallelismLimit {
    /// How many evaluations may run at once.
    pub evaluation: usize,
    /// How many nodes may be pushed to or activated at once.
    pub apply: usize,
}

impl ParallelismLimit {
    /// One evaluation and ten deployments at a time.
    pub open spec fn initial() -> ParallelismLimit {
        ParallelismLimit { evaluation: 1, apply: 10 }
    }

    /// Sets how many nodes may be pushed to or activated at once.
    pub fn set_apply_limit(&mut self, limit: usize)
        ensures
            *final(self) == (ParallelismLimit { apply: limit, ..*old(self) }),
    {
        self.apply = limit;
    }

    /// Sets how many evaluations may run at once.
    pub fn set_evaluation_limit(&mut self, limit: usize)
        ensures
            *final(self) == (ParallelismLimit { evaluation: limit, ..*old(self) }),
    {
        self.evaluation = limit;
    }
}

impl Default for ParallelismLimit {
    fn default() -> (r: ParallelismLimit)
        ensures
            r == ParallelismLimit::initial(),
    {
        ParallelismLimit { evaluation: 1, apply: 10 }
    }
}

/// The number of permits that a limit stands for among `n_targets` nodes:
/// the limit itself, or every node where the limit is zero.
pub open spec fn permits_spec(limit: usize, n_targets: usize) -> usize {
    if limit == 0 {
        n_targets
    } else {
        limit
    }
}

/// The number of permits that a limit stands for among `n_targets` nodes.
#[verifier::when_used_as_spec(permits_spec)]
pub fn permits(limit: usize, n_targets: usize) -> (r: usize)
    ensures
        r == permits_spec(limit, n_targets),
{
    if limit == 0 {
        n_targets
    } else {
        limit
    }
}

/// How many nodes are evaluated in one batch.
#[derive(Clone, Copy, Debug, PartialEq, Eq, Structural)]
pub enum EvaluationNodeLimit {
    /// All of them.
    Unlimited,
    /// As many as the machine's memory suggests.
    Heuristic,
    /// This many, which is not zero.
    Manual(usize),
}

impl EvaluationNodeLimit {
    /// The limit that a command-line word asks for: `auto` for the
    /// heuristic, zero for no limit, another number for itself.
    pub open spec fn parse(s: Seq<char>) -> Option<EvaluationNodeLimit> {
        if s == "auto"@ {
            Some(EvaluationNodeLimit::Heuristic)
        } else {
            match parse_usize_spec(s) {
                Some(n) => Some(
                    if n == 0 {
                        EvaluationNodeLimit::Unlimited
                    } else {
                        EvaluationNodeLimit::Manual(n)
                    },
                ),
                None => None,
            }
        }
    }

    /// The size of a batch among `n_nodes` nodes, where the heuristic
    /// suggests `suggested`: at least one node under the heuristic.
    pub open spec fn spec_chunk_size(&self, n_nodes: usize, suggested: usize) -> usize {
        match *self {
            EvaluationNodeLimit::Unlimited => n_nodes,
            EvaluationNodeLimit::Heuristic => if suggested == 0 {
                1
            } else {
                suggested
            },
            EvaluationNodeLimit::Manual(n) => n,
        }
    }

    /// Reads a limit from its command-line word.
    pub fn from_str(s: &str) -> (r: Option<EvaluationNodeLimit>)
        ensures
            r == EvaluationNodeLimit::parse(s@),
    {
        if str_eq(s, "auto") {
            Some(EvaluationNodeLimit::Heuristic)
        } else {
            match parse_usize(s) {
                Some(n) => if n == 0 {
                    Some(EvaluationNodeLimit::Unlimited)
                } else {
                    Some(EvaluationNodeLimit::Manual(n))
                },
                None => None,
            }
        }
    }

    /// The size of a batch among `n_nodes` nodes. `suggested` is what the
    /// caller's look at the machine's memory came to; only the heuristic reads it.
    #[verifier::when_used_as_spec(spec_chunk_size)]
    pub fn chunk_size(&self, n_nodes: usize, suggested: usize) -> (r: usize)
        ensures
            r == self.spec_chunk_size(n_nodes, suggested),
    {
        match self {
            EvaluationNodeLimit::Unlimited => n_nodes,
            EvaluationNodeLimit::Heuristic => if suggested == 0 {
                1
            } else {
                suggested
            },
            EvaluationNodeLimit::Manual(n) => *n,
        }
    }
}

/// The message for a limit that is not a number.
pub open spec fn invalid_number_message() -> Seq<char> {
    "The value must be a valid number"@
}

/// Checks the word given for the evaluation node limit: `auto` or a number.
pub fn validate_eval_node_limit(s: &str) -> (r: Result<(), String>)
    ensures
        r is Ok <==> s@ == "auto"@ || parse_usize_spec(s@) is Some,
        r is Err ==> r->Err_0@ == invalid_number_message(),
{
    if str_eq(s, "auto") {
        return Ok(());
    }
    match parse_usize(s) {
        Some(_) => Ok(()),
        None => Err(String::from_str("The value must be a valid number")),
    }
}

/// Checks the word given for the deployment parallelism limit: a number.
pub fn validate_parallel(s: &str) -> (r: Result<(), String>)
    ensures
        r is Ok <==> parse_usize_spec(s@) is Some,
        r is Err ==> r->Err_0@ == invalid_number_message(),
{
    match parse_usize(s) {
        Some(_) => Ok(()),
        None => Err(String::from_str("The value must be a valid number")),
    }
}

/// The flags of a deployment as the command line gave them.
pub struct DeployFlags {
    /// The goal's word.
    pub goal: String,
    /// The deployment parallelism limit's word.
    pub parallel: String,
    /// The evaluation node limit's word.
    pub eval_node_limit: String,
    /// Keep garbage-collector roots for built profiles.
    pub keep_result: bool,
    /// Print every line instead of drawing spinners.
    pub verbose: bool,
    /// Do not upload keys.
    pub no_keys: bool,
    /// Do not use substituters while copying.
    pub no_substitutes: bool,
    /// Do not compress the transport.
    pub no_gzip: bool,
    /// Replace unknown profiles on every node.
    pub force_replace_unknown_profiles: bool,
}

/// What a deployment runs with.
#[derive(Clone, Copy, Debug, PartialEq, Eq, Structural)]
pub struct DeploySettings {
    /// How far the deployment goes.
    pub goal: Goal,
    /// The toggles.
    pub options: Options,
    /// How many nodes are worked on at once. Neither limit is zero unless there is no node.
    pub parallelism_limit: ParallelismLimit,
    /// How many nodes are evaluated in one batch.
    pub evaluation_node_limit: EvaluationNodeLimit,
    /// Print every line instead of drawing spinners.
    pub verbose: bool,
}

impl DeployFlags {
    /// The toggles that the flags ask for.
    pub open spec fn options(&self) -> Options {
        Options {
            substituters_push: !self.no_substitutes,
            gzip: !self.no_gzip,
            upload_keys: !self.no_keys,
            create_gc_roots: self.keep_result,
            force_replace_unknown_profiles: self.force_replace_unknown_profiles,
        }
    }

    /// What a deployment to `n_targets` nodes runs with under these flags, or
    /// the first thing that is wrong with them: an unknown goal, then the goal
    /// to upload keys together with the flag not to, then a deployment limit
    /// that is no number, then an evaluation limit that is neither `auto` nor
    /// a number.
    pub open spec fn spec_settings(&self, n_targets: usize) -> Result<DeploySettings, NixError> {
        match Goal::parse(self.goal@) {
            None => Err(NixError::UnknownGoal),
            Some(goal) => if self.no_keys && goal == Goal::UploadKeys {
                Err(NixError::KeysGoalWithoutKeys)
            } else {
                match parse_usize_spec(self.parallel@) {
                    None => Err(NixError::InvalidNumber),
                    Some(apply) => match EvaluationNodeLimit::parse(self.eval_node_limit@) {
                        None => Err(NixError::InvalidNumber),
                        Some(limit) => Ok(
                            DeploySettings {
                                goal,
                                options: self.options(),
                                parallelism_limit: ParallelismLimit {
                                    evaluation: ParallelismLimit::initial().evaluation,
                                    apply: permits_spec(apply, n_targets),
                                },
                                evaluation_node_limit: limit,
                                verbose: self.verbose,
                            },
                        ),
                    },
                }
            },
        }
    }

    /// Works out what a deployment to `n_targets` nodes runs with.
    pub fn settings(&self, n_targets: usize) -> (r: Result<DeploySettings, NixError>)
        ensures
            r == self.spec_settings(n_targets),
    {
        let goal = match Goal::from_str(self.goal.as_str()) {
            Some(goal) => goal,
            None => {
                return Err(NixError::UnknownGoal);
            },
        };
        let mut options = Options::default();
        options.set_substituters_push(!self.no_substitutes);
        options.set_gzip(!self.no_gzip);
        options.set_upload_keys(!self.no_keys);
        options.set_force_replace_unknown_profiles(self.force_replace_unknown_profiles);
        if self.keep_result {
            options.set_create_gc_roots(true);
        }
        if self.no_keys && goal == Goal::UploadKeys {
            return Err(NixError::KeysGoalWithoutKeys);
        }
        let apply = match parse_usize(self.parallel.as_str()) {
            Some(limit) => limit,
            None => {
                return Err(NixError::InvalidNumber);
            },
        };
        let mut parallelism_limit = ParallelismLimit::default();
        parallelism_limit.set_apply_limit(permits(apply, n_targets));
        let evaluation_node_limit = match EvaluationNodeLimit::from_str(
            self.eval_node_limit.as_str(),
        ) {
            Some(limit) => limit,
            None => {
                return Err(NixError::InvalidNumber);
            },
        };
        Ok(
            DeploySettings {
                goal,
                options,
                parallelism_limit,
                evaluation_node_limit,
                verbose: self.verbose,
            },
        )
    }
}

/// The toggles that a deployment runs with, and what it tells a host that
/// copies a closure, are the flags that the user gave: nothing is lost or
/// changed on the way.
pub proof fn lemma_options_round_trip(flags: DeployFlags, n_targets: usize)
    requires
        flags.spec_settings(n_targets) is Ok,
    ensures
        ({
            let options = flags.spec_settings(n_targets)->Ok_0.options;
            &&& options.to_copy_options().use_substitutes == !flags.no_substitutes
            &&& options.to_copy_options().gzip == !flags.no_gzip
            &&& options.upload_keys == !flags.no_keys
            &&& options.create_gc_roots == flags.keep_result
            &&& options.force_replace_unknown_profiles == flags.force_replace_unknown_profiles
        }),
{
}

/// A deployment limit of zero is the same as a limit of one permit per node.
pub proof fn lemma_zero_parallel_is_every_node(flags: DeployFlags, other: DeployFlags, n_targets: usize)
    requires
        parse_usize_spec(flags.parallel@) == Some(0usize),
        parse_usize_spec(other.parallel@) == Some(n_targets),
        other.goal == flags.goal,
        other.eval_node_limit == flags.eval_node_limit,
        other.keep_result == flags.keep_result,
        other.verbose == flags.verbose,
        other.no_keys == flags.no_keys,
        other.no_substitutes == flags.no_substitutes,
        other.no_gzip == flags.no_gzip,
        other.force_replace_unknown_profiles == flags.force_replace_unknown_profiles,
    ensures
        flags.spec_settings(n_targets) == other.spec_settings(n_targets),
{
}

/// The goal to upload keys never goes together with the flag not to upload
/// any: such flags give no settings, whatever else they say.
pub proof fn lemma_keys_goal_needs_keys(flags: DeployFlags, n_targets: usize)
    requires
        flags.no_keys,
        Goal::parse(flags.goal@) == Some(Goal::UploadKeys),
    ensures
        flags.spec_settings(n_targets) == Err::<DeploySettings, NixError>(
            NixError::KeysGoalWithoutKeys,
        ),
{
}

/// An evaluation limit of zero lifts the limit: every node is evaluated in
/// one batch.
pub proof fn lemma_zero_eval_limit_is_all_at_once(word: Seq<char>, n_nodes: usize, suggested: usize)
    requires
        parse_usize_spec(word) == Some(0usize),
    ensures
        EvaluationNodeLimit::parse(word) == Some(EvaluationNodeLimit::Unlimited),
        EvaluationNodeLimit::parse(word)->0.chunk_size(n_nodes, suggested) == n_nodes,
{
    reveal_strlit("auto");
    if word == "auto"@ {
        assert(word[0] == 'a');
        assert(!crate::text::is_digit(crate::text::unsigned_digits(word)[0]));
    }
}

} // verus!
