//! The stages that one node passes through, and the rules that lead from
//! one stage to the next.

use crate::error::NixError;
use crate::goal::Goal;
use vstd::prelude::*;

verus! {

/// Where a node stands in its deployment.
#[derive(Clone, Copy, Debug, PartialEq, Eq, Structural)]
pub enum Stage {
    /// Nothing has happened yet: the node waits for its evaluation.
    New,
    /// The node's configuration is being evaluated.
    Evaluating,
    /// The node's closure is being built.
    Built,
    /// The keys that are due before activation are being uploaded.
    KeysPre,
    /// The node is ready to be pushed to and waits for its turn.
    Queued,
    /// The closure is being copied to the node.
    Pushing,
    /// The new configuration is being activated.
    Activating,
    /// The keys that are due after activation are being uploaded.
    KeysPost,
    /// The goal was reached.
    Done,
    /// An error ended the node's deployment.
    Failed(NixError),
}

/// One of the two limits on what runs at once.
#[derive(Clone, Copy, Debug, PartialEq, Eq, Structural)]
pub enum Gate {
    /// The limit on evaluations.
    Evaluation,
    /// The limit on pushes and activations.
    Apply,
}

/// The kind of work that a stage does.
#[derive(Clone, Copy, Debug, PartialEq, Eq, Structural)]
pub enum JobType {
    /// A job that only groups others.
    Meta,
    /// Evaluation of configurations.
    Evaluate,
    /// Realization of a closure.
    Build,
    /// Copying a closure to a node.
    Push,
    /// Activation of a configuration.
    Activate,
    /// Upload of keys.
    UploadKeys,
}

impl Stage {
    /// Whether the node's deployment has ended.
    pub open spec fn spec_is_terminal(&self) -> bool {
        *self == Stage::Done || *self is Failed
    }

    /// Whether the node waits for a permit.
    pub open spec fn spec_is_idle(&self) -> bool {
        *self == Stage::New || *self == Stage::Queued
    }

    /// Whether work is going on for the node.
    pub open spec fn spec_is_active(&self) -> bool {
        !self.spec_is_terminal() && !self.spec_is_idle()
    }

    /// Whether a node in this stage holds one of a limit's permits.
    pub open spec fn occupies(&self, gate: Gate) -> bool {
        match gate {
            Gate::Evaluation => *self == Stage::Evaluating,
            Gate::Apply => *self == Stage::Pushing || *self == Stage::Activating,
        }
    }

    /// The kind of job that reports the stage's work, for the stages that do any.
    pub open spec fn spec_job_type(&self) -> Option<JobType> {
        match *self {
            Stage::Evaluating => Some(JobType::Evaluate),
            Stage::Built => Some(JobType::Build),
            Stage::KeysPre => Some(JobType::UploadKeys),
            Stage::Pushing => Some(JobType::Push),
            Stage::Activating => Some(JobType::Activate),
            Stage::KeysPost => Some(JobType::UploadKeys),
            _ => None,
        }
    }

    /// The stage that follows this one when its work succeeded, under a
    /// goal, for a node that has or has not keys to upload before the
    /// activation (`keys_pre`) and after it (`keys_post`). A node waits in
    /// `Queued` between what comes before the push and the push itself.
    ///
    /// The goal to upload keys leads from `New` straight to `KeysPre` and
    /// from there to `Done`. The goal to build ends after `Built`, the goal
    /// to push after `Pushing`. The stages that upload keys are left out
    /// where there are none to upload.
    pub open spec fn next(&self, goal: Goal, keys_pre: bool, keys_post: bool) -> Stage {
        match *self {
            Stage::New => if goal == Goal::UploadKeys {
                Stage::KeysPre
            } else {
                Stage::Evaluating
            },
            Stage::Evaluating => Stage::Built,
            Stage::Built => if goal == Goal::Build {
                Stage::Done
            } else if keys_pre {
                Stage::KeysPre
            } else {
                Stage::Queued
            },
            Stage::KeysPre => if goal == Goal::UploadKeys {
                Stage::Done
            } else {
                Stage::Queued
            },
            Stage::Queued => Stage::Pushing,
            Stage::Pushing => if goal.is_real_goal() {
                Stage::Activating
            } else {
                Stage::Done
            },
            Stage::Activating => if keys_post {
                Stage::KeysPost
            } else {
                Stage::Done
            },
            Stage::KeysPost => Stage::Done,
            Stage::Done => Stage::Done,
            Stage::Failed(e) => Stage::Failed(e),
        }
    }

    /// Whether a node can ever be in this stage under a goal, with or
    /// without keys to upload before and after the activation.
    pub open spec fn reachable(&self, goal: Goal, keys_pre: bool, keys_post: bool) -> bool {
        match *self {
            Stage::New => true,
            Stage::Evaluating => goal != Goal::UploadKeys,
            Stage::Built => goal != Goal::UploadKeys,
            Stage::KeysPre => goal == Goal::UploadKeys || (keys_pre && goal != Goal::Build),
            Stage::Queued => goal != Goal::Build && goal != Goal::UploadKeys,
            Stage::Pushing => goal != Goal::Build && goal != Goal::UploadKeys,
            Stage::Activating => goal.is_real_goal(),
            Stage::KeysPost => goal.is_real_goal() && keys_post,
            Stage::Done => true,
            Stage::Failed(_) => true,
        }
    }

    /// Whether the unknown profile on a node stops the node here: it does
    /// when the node leaves `Built` for a goal that needs the target, the
    /// target does not know the derivation of its live profile, and neither
    /// the node nor the deployment allows to replace an unknown profile.
    pub open spec fn refuses_unknown_profile(
        &self,
        goal: Goal,
        profile_known: bool,
        replace_unknown: bool,
        force_replace: bool,
    ) -> bool {
        *self == Stage::Built && goal.requires_target_host() && !profile_known && !replace_unknown
            && !force_replace
    }

    /// The stage of a node after the work of its stage was reported.
    ///
    /// Reports for a node that does no work change nothing. A failure ends
    /// the node's deployment with its reason. After a success the node is
    /// refused for its unknown profile where that rule applies, and is done
    /// where no stage follows. Otherwise it goes on to the next stage, unless
    /// the deployment was cancelled: then it fails as cancelled, and no
    /// further stage is started.
    pub open spec fn after_report(
        &self,
        result: Result<(), NixError>,
        profile_known: bool,
        goal: Goal,
        keys_pre: bool,
        keys_post: bool,
        replace_unknown: bool,
        force_replace: bool,
        cancelled: bool,
    ) -> Stage {
        if !self.spec_is_active() {
            *self
        } else {
            match result {
                Err(e) => Stage::Failed(e),
                Ok(_) => if self.refuses_unknown_profile(
                    goal,
                    profile_known,
                    replace_unknown,
                    force_replace,
                ) {
                    Stage::Failed(NixError::UnknownProfile)
                } else if self.next(goal, keys_pre, keys_post) == Stage::Done {
                    Stage::Done
                } else if cancelled {
                    Stage::Failed(NixError::Cancelled)
                } else {
                    self.next(goal, keys_pre, keys_post)
                },
            }
        }
    }

    /// Whether the node's deployment has ended.
    #[verifier::when_used_as_spec(spec_is_terminal)]
    pub fn is_terminal(&self) -> (r: bool)
        ensures
            r == self.spec_is_terminal(),
    {
        matches!(self, Stage::Done | Stage::Failed(_))
    }

    /// Whether the node waits for a permit.
    #[verifier::when_used_as_spec(spec_is_idle)]
    pub fn is_idle(&self) -> (r: bool)
        ensures
            r == self.spec_is_idle(),
    {
        matches!(self, Stage::New | Stage::Queued)
    }

    /// Whether work is going on for the node.
    #[verifier::when_used_as_spec(spec_is_active)]
    pub fn is_active(&self) -> (r: bool)
        ensures
            r == self.spec_is_active(),
    {
        !self.is_terminal() && !self.is_idle()
    }

    /// The kind of job that reports the stage's work, for the stages that do any.
    #[verifier::when_used_as_spec(spec_job_type)]
    pub fn job_type(&self) -> (r: Option<JobType>)
        ensures
            r == self.spec_job_type(),
    {
        match self {
            Stage::Evaluating => Some(JobType::Evaluate),
            Stage::Built => Some(JobType::Build),
            Stage::KeysPre => Some(JobType::UploadKeys),
            Stage::Pushing => Some(JobType::Push),
            Stage::Activating => Some(JobType::Activate),
            Stage::KeysPost => Some(JobType::UploadKeys),
            _ => None,
        }
    }

    /// The stage that follows this one when its work succeeded.
    pub fn successor(&self, goal: Goal, keys_pre: bool, keys_post: bool) -> (r: Stage)
        ensures
            r == self.next(goal, keys_pre, keys_post),
    {
        match self {
            Stage::New => if goal == Goal::UploadKeys {
                Stage::KeysPre
            } else {
                Stage::Evaluating
            },
            Stage::Evaluating => Stage::Built,
            Stage::Built => if goal == Goal::Build {
                Stage::Done
            } else if keys_pre {
                Stage::KeysPre
            } else {
                Stage::Queued
            },
            Stage::KeysPre => if goal == Goal::UploadKeys {
                Stage::Done
            } else {
                Stage::Queued
            },
            Stage::Queued => Stage::Pushing,
            Stage::Pushing => if goal.is_real_goal() {
                Stage::Activating
            } else {
                Stage::Done
            },
            Stage::Activating => if keys_post {
                Stage::KeysPost
            } else {
                Stage::Done
            },
            Stage::KeysPost => Stage::Done,
            Stage::Done => Stage::Done,
            Stage::Failed(e) => Stage::Failed(*e),
        }
    }

    /// The stage of a node after the work of its stage was reported.
    pub fn report(
        &self,
        result: Result<(), NixError>,
        profile_known: bool,
        goal: Goal,
        keys_pre: bool,
        keys_post: bool,
        replace_unknown: bool,
        force_replace: bool,
        cancelled: bool,
    ) -> (r: Stage)
        ensures
            r == self.after_report(
                result,
                profile_known,
                goal,
                keys_pre,
                keys_post,
                replace_unknown,
                force_replace,
                cancelled,
            ),
    {
        if !self.is_active() {
            return *self;
        }
        match result {
            Err(e) => Stage::Failed(e),
            Ok(_) => {
                let next = self.successor(goal, keys_pre, keys_post);
                if matches!(self, Stage::Built) && goal.requires_target_host() && !profile_known
                    && !replace_unknown && !force_replace {
                    Stage::Failed(NixError::UnknownProfile)
                } else if matches!(next, Stage::Done) {
                    Stage::Done
                } else if cancelled {
                    Stage::Failed(NixError::Cancelled)
                } else {
                    next
                }
            },
        }
    }
}

/// How many of the stages hold one of a limit's permits.
pub open spec fn count_in(stages: Seq<Stage>, gate: Gate) -> nat
    decreases stages.len(),
{
    if stages.len() == 0 {
        0
    } else {
        count_in(stages.drop_last(), gate) + if stages.last().occupies(gate) {
            1nat
        } else {
            0nat
        }
    }
}

/// A stage appended to the others counts if it holds one of the permits.
pub proof fn lemma_count_push(stages: Seq<Stage>, stage: Stage, gate: Gate)
    ensures
        count_in(stages.push(stage), gate) == count_in(stages, gate) + if stage.occupies(gate) {
            1nat
        } else {
            0nat
        },
{
    assert(stages.push(stage).drop_last() =~= stages);
}

/// Changing one stage changes the count by what the old stage held and
/// the new one holds.
pub proof fn lemma_count_update(stages: Seq<Stage>, i: int, stage: Stage, gate: Gate)
    requires
        0 <= i < stages.len(),
    ensures
        count_in(stages.update(i, stage), gate) == count_in(stages, gate) - (if stages[i].occupies(
            gate,
        ) {
            1int
        } else {
            0int
        }) + (if stage.occupies(gate) {
            1int
        } else {
            0int
        }),
    decreases stages.len(),
{
    if i == stages.len() - 1 {
        assert(stages.update(i, stage).drop_last() =~= stages.drop_last());
    } else {
        assert(stages.update(i, stage).drop_last() =~= stages.drop_last().update(i, stage));
        lemma_count_update(stages.drop_last(), i, stage, gate);
    }
}

/// A stage that can be reached under a goal is followed only by stages
/// that can be reached under it, whatever is reported.
pub proof fn lemma_reachable_after_report(
    stage: Stage,
    result: Result<(), NixError>,
    profile_known: bool,
    goal: Goal,
    keys_pre: bool,
    keys_post: bool,
    replace_unknown: bool,
    force_replace: bool,
    cancelled: bool,
)
    requires
        stage.reachable(goal, keys_pre, keys_post),
    ensures
        stage.next(goal, keys_pre, keys_post).reachable(goal, keys_pre, keys_post),
        stage.after_report(
            result,
            profile_known,
            goal,
            keys_pre,
            keys_post,
            replace_unknown,
            force_replace,
            cancelled,
        ).reachable(goal, keys_pre, keys_post),
{
}

} // verus!
