//! The deployment engine: the stages of every node, the two limits on
//! what runs at once, and the decisions that lead from one report to the
//! next piece of work. The engine does no work itself: it says what is
//! to be started and is told how it ended.

use crate::error::NixError;
use crate::goal::Goal;
use crate::options::{permits, permits_spec, DeploySettings, Options};
use crate::runs::{lemma_admit_apply_wf, lemma_admit_new_wf, lemma_cancel_wf, lemma_initial_wf,
    lemma_report_wf};
use crate::stage::{count_in, lemma_count_push, lemma_count_update, Gate, Stage};
use vstd::prelude::*;

verus! {

/// What the engine has to know of a node.
#[derive(Clone, Copy, Debug, PartialEq, Eq, Structural)]
pub struct NodePolicy {
    /// Whether an unknown profile on the node may be replaced.
    pub replace_unknown_profiles: bool,
    /// Whether the node has keys that are due before activation.
    pub pre_keys: bool,
    /// Whether the node has keys that are due after activation.
    pub post_keys: bool,
}

/// Work to be started: the node, and the stage whose work it is.
#[derive(Clone, Copy, Debug, PartialEq, Eq, Structural)]
pub struct Start {
    /// The node, by its place in the list of nodes.
    pub node: usize,
    /// The stage that the node has entered.
    pub stage: Stage,
}

/// Where the first node that is still `New` stands, or the number of
/// stages if there is none.
pub open spec fn first_new(stages: Seq<Stage>) -> int
    decreases stages.len(),
{
    if stages.len() == 0 {
        0
    } else {
        let i = first_new(stages.drop_last());
        if i < stages.len() - 1 {
            i
        } else if stages.last() == Stage::New {
            stages.len() - 1
        } else {
            stages.len() as int
        }
    }
}

/// The first `New` node is where a scan from the left finds it.
pub proof fn lemma_first_new(stages: Seq<Stage>, k: int)
    requires
        0 <= k <= stages.len(),
        forall|j: int| 0 <= j < k ==> stages[j] != Stage::New,
        k < stages.len() ==> stages[k] == Stage::New,
    ensures
        first_new(stages) == k,
    decreases stages.len(),
{
    if stages.len() > 0 {
        let front = stages.drop_last();
        if k < stages.len() - 1 {
            lemma_first_new(front, k);
        } else {
            lemma_first_new(front, stages.len() - 1);
        }
    }
}

/// The engine as a plain value.
pub struct EngineView {
    /// How far the deployment goes.
    pub goal: Goal,
    /// The toggles.
    pub options: Options,
    /// How many nodes may be evaluated at once.
    pub eval_permits: usize,
    /// How many nodes may be pushed to or activated at once.
    pub apply_permits: usize,
    /// How many nodes are taken into one batch of evaluations.
    pub chunk_size: usize,
    /// The stage of every node.
    pub stages: Seq<Stage>,
    /// For every node, what the engine has to know of it.
    pub policies: Seq<NodePolicy>,
    /// The nodes that wait to be pushed to, the one that waited longest first.
    pub queue: Seq<usize>,
    /// Whether the deployment was cancelled.
    pub cancelled: bool,
}

impl EngineView {
    /// What holds of every engine: every node has its policy, and the
    /// nodes can be counted; neither limit has given out more permits than
    /// it has; the queue holds exactly the nodes that are `Queued`, each
    /// once; every node is in a stage that its goal can reach; the goal to
    /// upload keys has the upload of keys on; and after cancellation no node
    /// waits for a permit.
    #[verifier::opaque]
    pub open spec fn wf(self) -> bool {
        &&& self.stages.len() == self.policies.len()
        &&& self.stages.len() <= usize::MAX
        &&& count_in(self.stages, Gate::Evaluation) <= self.eval_permits
        &&& count_in(self.stages, Gate::Apply) <= self.apply_permits
        &&& forall|k: int|
            0 <= k < self.queue.len() ==> (#[trigger] self.queue[k]) < self.stages.len()
                && self.stages[self.queue[k] as int] == Stage::Queued
        &&& forall|k1: int, k2: int|
            0 <= k1 < k2 < self.queue.len() ==> self.queue[k1] != self.queue[k2]
        &&& forall|i: int|
            0 <= i < self.stages.len() && #[trigger] self.stages[i] == Stage::Queued
                ==> self.queue.contains(i as usize)
        &&& forall|i: int|
            0 <= i < self.stages.len() ==> (#[trigger] self.stages[i]).reachable(
                self.goal,
                self.keys_pre(i),
                self.keys_post(i),
            )
        &&& self.goal == Goal::UploadKeys ==> self.options.upload_keys
        &&& self.cancelled ==> forall|i: int|
            0 <= i < self.stages.len() ==> !(#[trigger] self.stages[i]).is_idle()
    }

    /// The parts of what holds of every engine that its operations lean on.
    pub proof fn lemma_wf_basics(self)
        requires
            self.wf(),
        ensures
            self.stages.len() == self.policies.len(),
            self.stages.len() <= usize::MAX,
            count_in(self.stages, Gate::Evaluation) <= self.eval_permits,
            count_in(self.stages, Gate::Apply) <= self.apply_permits,
            forall|k: int|
                0 <= k < self.queue.len() ==> (#[trigger] self.queue[k]) < self.stages.len()
                    && self.stages[self.queue[k] as int] == Stage::Queued,
    {
        reveal(EngineView::wf);
    }

    /// The work of the stage that a node is in is of a kind that the goal has.
    pub proof fn lemma_stage_fits(self, node: int)
        requires
            self.wf(),
            0 <= node < self.stages.len(),
        ensures
            self.stages[node].reachable(self.goal, self.keys_pre(node), self.keys_post(node)),
            self.stages[node].job_type() is Some ==> crate::deployment::kind_fits(
                self.goal,
                self.stages[node].job_type()->0,
            ),
    {
        reveal(EngineView::wf);
    }

    /// Whether keys are uploaded to a node before activation: where the
    /// upload of keys is on and the node has such keys.
    pub open spec fn keys_pre(self, node: int) -> bool {
        self.options.upload_keys && self.policies[node].pre_keys
    }

    /// Whether keys are uploaded to a node after activation: where the
    /// upload of keys is on and the node has such keys.
    pub open spec fn keys_post(self, node: int) -> bool {
        self.options.upload_keys && self.policies[node].post_keys
    }

    /// The engine at the start of a deployment to as many nodes as there
    /// are policies: every node is `New`, nobody waits, nothing is cancelled.
    /// A limit of zero stands for one permit per node.
    pub open spec fn initial(
        settings: DeploySettings,
        policies: Seq<NodePolicy>,
        suggested_chunk: usize,
    ) -> EngineView {
        let n = policies.len() as usize;
        EngineView {
            goal: settings.goal,
            options: settings.options,
            eval_permits: permits_spec(settings.parallelism_limit.evaluation, n),
            apply_permits: permits_spec(settings.parallelism_limit.apply, n),
            chunk_size: settings.evaluation_node_limit.chunk_size(n, suggested_chunk),
            stages: Seq::new(policies.len(), |i: int| Stage::New),
            policies,
            queue: Seq::empty(),
            cancelled: false,
        }
    }

    /// The stage of a node after a report on it.
    pub open spec fn stage_after_report(
        self,
        node: usize,
        result: Result<(), NixError>,
        profile_known: bool,
    ) -> Stage
        recommends
            node < self.stages.len(),
    {
        self.stages[node as int].after_report(
            result,
            profile_known,
            self.goal,
            self.keys_pre(node as int),
            self.keys_post(node as int),
            self.policies[node as int].replace_unknown_profiles,
            self.options.force_replace_unknown_profiles,
            self.cancelled,
        )
    }

    /// The engine after a report on a node: the node's stage follows the
    /// rules for one node, the node joins the queue where it now waits to be
    /// pushed to, and nothing else changes. A report on a node that does
    /// not exist changes nothing.
    pub open spec fn after_report(
        self,
        node: usize,
        result: Result<(), NixError>,
        profile_known: bool,
    ) -> EngineView {
        if node >= self.stages.len() {
            self
        } else {
            let stage = self.stage_after_report(node, result, profile_known);
            EngineView {
                stages: self.stages.update(node as int, stage),
                queue: if stage == Stage::Queued && self.stages[node as int] != Stage::Queued {
                    self.queue.push(node)
                } else {
                    self.queue
                },
                ..self
            }
        }
    }

    /// The work that a report on a node starts at once for that node: the
    /// work of the stage that the node has entered, if it entered one that
    /// needs no permit.
    pub open spec fn next_work(
        self,
        node: usize,
        result: Result<(), NixError>,
        profile_known: bool,
    ) -> Option<Stage> {
        if node >= self.stages.len() {
            None
        } else {
            let stage = self.stage_after_report(node, result, profile_known);
            if stage != self.stages[node as int] && stage.is_active() {
                Some(stage)
            } else {
                None
            }
        }
    }

    /// Whether a node that is `New` may start: never after cancellation;
    /// at once under the goal to upload keys; otherwise when the evaluation
    /// limit has a permit left.
    pub open spec fn can_start(self) -> bool {
        !self.cancelled && (self.goal == Goal::UploadKeys || count_in(
            self.stages,
            Gate::Evaluation,
        ) < self.eval_permits)
    }

    /// Starts the first node that is `New`, if it may start.
    pub open spec fn admit_new(self) -> (EngineView, Option<Start>) {
        let i = first_new(self.stages);
        if self.can_start() && i < self.stages.len() {
            let stage = Stage::New.next(self.goal, self.keys_pre(i), self.keys_post(i));
            (
                EngineView { stages: self.stages.update(i, stage), ..self },
                Some(Start { node: i as usize, stage }),
            )
        } else {
            (self, None)
        }
    }

    /// Whether the node at the head of the queue may be pushed to.
    pub open spec fn can_push(self) -> bool {
        !self.cancelled && self.queue.len() > 0 && count_in(self.stages, Gate::Apply)
            < self.apply_permits
    }

    /// Lets the node at the head of the queue be pushed to, if it may.
    pub open spec fn admit_apply(self) -> (EngineView, Option<Start>) {
        if self.can_push() {
            let node = self.queue[0];
            (
                EngineView {
                    stages: self.stages.update(node as int, Stage::Pushing),
                    queue: self.queue.skip(1),
                    ..self
                },
                Some(Start { node, stage: Stage::Pushing }),
            )
        } else {
            (self, None)
        }
    }

    /// Starts up to `k` nodes that are `New`, one after the other, and adds
    /// them to what was started before.
    pub open spec fn admit_new_up_to(self, k: nat, started: Seq<Start>) -> (
        EngineView,
        Seq<Start>,
    )
        decreases k,
    {
        if k == 0 {
            (self, started)
        } else {
            match self.admit_new().1 {
                Some(start) => self.admit_new().0.admit_new_up_to(
                    (k - 1) as nat,
                    started.push(start),
                ),
                None => (self, started),
            }
        }
    }

    /// Lets queued nodes be pushed to, one after the other, for as long as
    /// one may, and adds them to what was started before.
    pub open spec fn admit_apply_all(self, started: Seq<Start>) -> (EngineView, Seq<Start>)
        decreases self.queue.len(),
    {
        if self.can_push() {
            self.admit_apply().0.admit_apply_all(started.push(self.admit_apply().1->0))
        } else {
            (self, started)
        }
    }

    /// How many `New` nodes one round may start: a batch of evaluations,
    /// or every node under the goal to upload keys.
    pub open spec fn round_limit(self) -> nat {
        if self.goal == Goal::UploadKeys {
            self.stages.len()
        } else {
            self.chunk_size as nat
        }
    }

    /// One round of admissions: first a batch of `New` nodes, then the
    /// queued nodes that may be pushed to.
    pub open spec fn poll(self) -> (EngineView, Seq<Start>) {
        let (after, started) = self.admit_new_up_to(self.round_limit(), Seq::empty());
        after.admit_apply_all(started)
    }

    /// The engine after cancellation: every node that waited for a permit
    /// has failed as cancelled; the others go on with what they are doing.
    pub open spec fn after_cancel(self) -> EngineView {
        EngineView {
            cancelled: true,
            stages: Seq::new(
                self.stages.len(),
                |i: int|
                    if self.stages[i].is_idle() {
                        Stage::Failed(NixError::Cancelled)
                    } else {
                        self.stages[i]
                    },
            ),
            queue: Seq::empty(),
            ..self
        }
    }

    /// Whether every node's deployment has ended.
    pub open spec fn finished(self) -> bool {
        forall|i: int| 0 <= i < self.stages.len() ==> (#[trigger] self.stages[i]).is_terminal()
    }
}

/// The deployment engine.
#[derive(Debug)]
pub struct Engine {
    goal: Goal,
    options: Options,
    eval_permits: usize,
    apply_permits: usize,
    chunk_size: usize,
    stages: Vec<Stage>,
    policies: Vec<NodePolicy>,
    queue: Vec<usize>,
    evaluating: usize,
    applying: usize,
    cancelled: bool,
}

impl View for Engine {
    type V = EngineView;

    closed spec fn view(&self) -> EngineView {
        EngineView {
            goal: self.goal,
            options: self.options,
            eval_permits: self.eval_permits,
            apply_permits: self.apply_permits,
            chunk_size: self.chunk_size,
            stages: self.stages@,
            policies: self.policies@,
            queue: self.queue@,
            cancelled: self.cancelled,
        }
    }
}

impl Engine {
    /// Whether the engine is in order: what holds of every engine holds of
    /// it, and its books on the permits are right.
    pub closed spec fn wf(&self) -> bool {
        &&& self@.wf()
        &&& self.evaluating == count_in(self.stages@, Gate::Evaluation)
        &&& self.applying == count_in(self.stages@, Gate::Apply)
    }

    /// An engine in order is one of which everything holds that holds of every engine.
    pub proof fn lemma_wf(&self)
        requires
            self.wf(),
        ensures
            self@.wf(),
    {
    }

    /// The engine for a deployment to as many nodes as there are policies.
    /// `suggested_chunk` is the batch size that a look at the machine's
    /// memory suggests. The goal to upload keys with the upload of keys
    /// switched off is refused before anything starts.
    pub fn new(settings: &DeploySettings, policies: Vec<NodePolicy>, suggested_chunk: usize) -> (r:
        Result<Engine, NixError>)
        ensures
            r is Err <==> settings.goal == Goal::UploadKeys && !settings.options.upload_keys,
            r is Err ==> r->Err_0 == NixError::KeysGoalWithoutKeys,
            r is Ok ==> r->Ok_0.wf() && r->Ok_0@ == EngineView::initial(
                *settings,
                policies@,
                suggested_chunk,
            ),
    {
        if settings.goal == Goal::UploadKeys && !settings.options.upload_keys {
            return Err(NixError::KeysGoalWithoutKeys);
        }
        let n = policies.len();
        let mut stages: Vec<Stage> = Vec::new();
        let mut i: usize = 0;
        while i < n
            invariant
                i <= n,
                stages.len() == i,
                forall|j: int| 0 <= j < i ==> stages@[j] == Stage::New,
                count_in(stages@, Gate::Evaluation) == 0,
                count_in(stages@, Gate::Apply) == 0,
            decreases n - i,
        {
            proof {
                lemma_count_push(stages@, Stage::New, Gate::Evaluation);
                lemma_count_push(stages@, Stage::New, Gate::Apply);
            }
            stages.push(Stage::New);
            i = i + 1;
        }
        assert(stages@ =~= Seq::new(policies@.len(), |i: int| Stage::New));
        proof {
            lemma_initial_wf(*settings, policies@, suggested_chunk);
        }
        let engine = Engine {
            goal: settings.goal,
            options: settings.options,
            eval_permits: permits(settings.parallelism_limit.evaluation, n),
            apply_permits: permits(settings.parallelism_limit.apply, n),
            chunk_size: settings.evaluation_node_limit.chunk_size(n, suggested_chunk),
            stages,
            policies,
            queue: Vec::new(),
            evaluating: 0,
            applying: 0,
            cancelled: false,
        };
        Ok(engine)
    }

    /// The number of nodes.
    pub fn len(&self) -> (r: usize)
        ensures
            r == self@.stages.len(),
    {
        self.stages.len()
    }

    /// The stage of a node, if there is such a node.
    pub fn stage(&self, node: usize) -> (r: Option<Stage>)
        ensures
            r == (if node < self@.stages.len() {
                Some(self@.stages[node as int])
            } else {
                None
            }),
    {
        if node < self.stages.len() {
            Some(self.stages[node])
        } else {
            None
        }
    }

    /// Whether the deployment was cancelled.
    pub fn is_cancelled(&self) -> (r: bool)
        ensures
            r == self@.cancelled,
    {
        self.cancelled
    }

    /// Takes the report on the work of a node's stage: how it ended and,
    /// for what it is worth after a build, whether the node knows the
    /// derivation of its live profile. Says what is to be started for the
    /// node at once.
    #[verifier::rlimit(60)]
    pub fn complete(&mut self, node: usize, result: Result<(), NixError>, profile_known: bool) -> (next:
        Option<Stage>)
        requires
            old(self).wf(),
        ensures
            final(self).wf(),
            final(self)@ == old(self)@.after_report(node, result, profile_known),
            next == old(self)@.next_work(node, result, profile_known),
    {
        if node >= self.stages.len() {
            return None;
        }
        proof {
            self@.lemma_wf_basics();
        }
        let before = self.stages[node];
        let policy = self.policies[node];
        let stage = before.report(
            result,
            profile_known,
            self.goal,
            self.options.upload_keys && policy.pre_keys,
            self.options.upload_keys && policy.post_keys,
            policy.replace_unknown_profiles,
            self.options.force_replace_unknown_profiles,
            self.cancelled,
        );
        if stage == before {
            assert(self.stages@.update(node as int, stage) =~= self.stages@);
            return None;
        }
        proof {
            lemma_report_wf(self@, node, result, profile_known);
            lemma_count_update(self.stages@, node as int, stage, Gate::Evaluation);
            lemma_count_update(self.stages@, node as int, stage, Gate::Apply);
        }
        if matches!(before, Stage::Evaluating) {
            self.evaluating = self.evaluating - 1;
        }
        if matches!(before, Stage::Pushing | Stage::Activating) && !matches!(
            stage,
            Stage::Activating
        ) {
            self.applying = self.applying - 1;
        }
        self.stages.set(node, stage);
        if matches!(stage, Stage::Queued) {
            self.queue.push(node);
        }
        proof {
            let after = old(self)@.after_report(node, result, profile_known);
            assert(self@.stages == after.stages);
            assert(self@.queue == after.queue);
            assert(self@ == after);
        }
        if stage.is_active() {
            Some(stage)
        } else {
            None
        }
    }
}

impl Engine {
    /// Starts the first node that is `New`, if it may start.
    pub fn admit_new(&mut self) -> (r: Option<Start>)
        requires
            old(self).wf(),
        ensures
            final(self).wf(),
            (final(self)@, r) == old(self)@.admit_new(),
    {
        let keys = self.goal == Goal::UploadKeys;
        if self.cancelled || (!keys && self.evaluating >= self.eval_permits) {
            return None;
        }
        proof {
            self@.lemma_wf_basics();
        }
        let n = self.stages.len();
        let mut i: usize = 0;
        while i < n && !matches!(self.stages[i], Stage::New)
            invariant
                n == self.stages.len(),
                i <= n,
                forall|j: int| 0 <= j < i ==> self.stages@[j] != Stage::New,
            decreases n - i,
        {
            i = i + 1;
        }
        proof {
            lemma_first_new(self.stages@, i as int);
        }
        if i == n {
            return None;
        }
        let policy = self.policies[i];
        let stage = Stage::New.successor(
            self.goal,
            self.options.upload_keys && policy.pre_keys,
            self.options.upload_keys && policy.post_keys,
        );
        proof {
            lemma_admit_new_wf(self@);
            lemma_count_update(self.stages@, i as int, stage, Gate::Evaluation);
            lemma_count_update(self.stages@, i as int, stage, Gate::Apply);
        }
        if !keys {
            self.evaluating = self.evaluating + 1;
        }
        self.stages.set(i, stage);
        proof {
            let after = old(self)@.admit_new().0;
            assert(self@.stages == after.stages);
            assert(self@ == after);
        }
        Some(Start { node: i, stage })
    }

    /// Lets the node at the head of the queue be pushed to, if it may.
    pub fn admit_apply(&mut self) -> (r: Option<Start>)
        requires
            old(self).wf(),
        ensures
            final(self).wf(),
            (final(self)@, r) == old(self)@.admit_apply(),
    {
        if self.cancelled || self.queue.len() == 0 || self.applying >= self.apply_permits {
            return None;
        }
        let ghost queue_before = self.queue@;
        proof {
            self@.lemma_wf_basics();
            lemma_admit_apply_wf(self@);
        }
        let node = self.queue.remove(0);
        assert(self.queue@ =~= queue_before.skip(1));
        proof {
            lemma_count_update(self.stages@, node as int, Stage::Pushing, Gate::Evaluation);
            lemma_count_update(self.stages@, node as int, Stage::Pushing, Gate::Apply);
        }
        self.applying = self.applying + 1;
        self.stages.set(node, Stage::Pushing);
        proof {
            let after = old(self)@.admit_apply().0;
            assert(self@.stages == after.stages);
            assert(self@.queue == after.queue);
            assert(self@ == after);
        }
        Some(Start { node, stage: Stage::Pushing })
    }

    /// One round of admissions: starts a batch of `New` nodes, then lets
    /// queued nodes be pushed to for as long as permits are left. Says
    /// what is to be started, in the order in which it was admitted.
    pub fn poll(&mut self) -> (starts: Vec<Start>)
        requires
            old(self).wf(),
        ensures
            final(self).wf(),
            (final(self)@, starts@) == old(self)@.poll(),
    {
        let limit = if self.goal == Goal::UploadKeys {
            self.stages.len()
        } else {
            self.chunk_size
        };
        let ghost at_entry = self@;
        let mut starts: Vec<Start> = Vec::new();
        let mut k: usize = 0;
        let mut more = true;
        while more && k < limit
            invariant
                self.wf(),
                k <= limit,
                !more ==> self@.admit_new().1 is None,
                self@.admit_new_up_to((limit - k) as nat, starts@) == at_entry.admit_new_up_to(
                    limit as nat,
                    Seq::empty(),
                ),
            decreases (if more { 1int } else { 0int }), limit - k,
        {
            match self.admit_new() {
                Some(start) => {
                    starts.push(start);
                    k = k + 1;
                },
                None => {
                    more = false;
                },
            }
        }
        let ghost at_middle = self@;
        let ghost started = starts@;
        assert((at_middle, started) == at_entry.admit_new_up_to(limit as nat, Seq::empty()));
        let mut more = true;
        while more
            invariant
                self.wf(),
                !more ==> !self@.can_push(),
                self@.admit_apply_all(starts@) == at_middle.admit_apply_all(started),
            decreases (if more { 1int } else { 0int }), self@.queue.len(),
        {
            match self.admit_apply() {
                Some(start) => {
                    starts.push(start);
                },
                None => {
                    more = false;
                },
            }
        }
        starts
    }

    /// Cancels the deployment. Every node that waits for a permit fails as
    /// cancelled at once. Work that is going on is left to finish; what it
    /// comes to is told to `complete` as ever, and nothing further is started.
    pub fn cancel(&mut self)
        requires
            old(self).wf(),
        ensures
            final(self).wf(),
            final(self)@ == old(self)@.after_cancel(),
    {
        let n = self.stages.len();
        let ghost before = self.stages@;
        proof {
            lemma_cancel_wf(self@);
        }
        let mut i: usize = 0;
        while i < n
            invariant
                n == before.len(),
                self.stages@.len() == n,
                i <= n,
                forall|j: int| 0 <= j < i ==> self.stages@[j] == (if before[j].is_idle() {
                    Stage::Failed(NixError::Cancelled)
                } else {
                    before[j]
                }),
                forall|j: int| i <= j < n ==> self.stages@[j] == before[j],
                count_in(self.stages@, Gate::Evaluation) == count_in(before, Gate::Evaluation),
                count_in(self.stages@, Gate::Apply) == count_in(before, Gate::Apply),
                self.goal == old(self).goal,
                self.options == old(self).options,
                self.eval_permits == old(self).eval_permits,
                self.apply_permits == old(self).apply_permits,
                self.chunk_size == old(self).chunk_size,
                self.policies == old(self).policies,
                self.evaluating == old(self).evaluating,
                self.applying == old(self).applying,
            decreases n - i,
        {
            if self.stages[i].is_idle() {
                proof {
                    lemma_count_update(
                        self.stages@,
                        i as int,
                        Stage::Failed(NixError::Cancelled),
                        Gate::Evaluation,
                    );
                    lemma_count_update(
                        self.stages@,
                        i as int,
                        Stage::Failed(NixError::Cancelled),
                        Gate::Apply,
                    );
                }
                self.stages.set(i, Stage::Failed(NixError::Cancelled));
            }
            i = i + 1;
        }
        self.queue = Vec::new();
        self.cancelled = true;
        assert(self.stages@ =~= old(self)@.after_cancel().stages);
        assert(self.queue@ =~= Seq::<usize>::empty());
    }

    /// Whether every node's deployment has ended.
    pub fn finished(&self) -> (r: bool)
        ensures
            r == self@.finished(),
    {
        let n = self.stages.len();
        let mut i: usize = 0;
        while i < n
            invariant
                n == self.stages.len(),
                i <= n,
                forall|j: int| 0 <= j < i ==> (#[trigger] self.stages@[j]).is_terminal(),
            decreases n - i,
        {
            if !self.stages[i].is_terminal() {
                assert(!self@.stages[i as int].is_terminal());
                return false;
            }
            i = i + 1;
        }
        true
    }
}

/// A node that failed, and why.
#[derive(Clone, Copy, Debug, PartialEq, Eq, Structural)]
pub struct Failure {
    /// The node, by its place in the list of nodes.
    pub node: usize,
    /// The error that ended its deployment.
    pub reason: NixError,
}

/// The nodes among the stages that have failed, in the order of the nodes.
pub open spec fn failures_among(stages: Seq<Stage>) -> Seq<Failure>
    decreases stages.len(),
{
    if stages.len() == 0 {
        Seq::empty()
    } else {
        let earlier = failures_among(stages.drop_last());
        match stages.last() {
            Stage::Failed(reason) => earlier.push(
                Failure { node: (stages.len() - 1) as usize, reason },
            ),
            _ => earlier,
        }
    }
}

/// Whether every node is done.
pub open spec fn all_done(stages: Seq<Stage>) -> bool {
    forall|i: int| 0 <= i < stages.len() ==> #[trigger] stages[i] == Stage::Done
}

/// Whether some node is done.
pub open spec fn any_done(stages: Seq<Stage>) -> bool {
    exists|i: int| 0 <= i < stages.len() && #[trigger] stages[i] == Stage::Done
}

/// The exit code of a deployment that ended with its nodes in these
/// stages: 0 where every node is done, 2 where some are and some are not,
/// 1 where none is.
pub open spec fn exit_code_spec(stages: Seq<Stage>) -> i32 {
    if all_done(stages) {
        0
    } else if any_done(stages) {
        2
    } else {
        1
    }
}

/// The exit code of a deployment that was refused before it began.
pub const EXIT_CONFIGURATION: i32 = 1;

/// Every entry of the list of failures names a node that failed, with its reason.
pub proof fn lemma_failures_sound(stages: Seq<Stage>, k: int)
    requires
        stages.len() <= usize::MAX,
        0 <= k < failures_among(stages).len(),
    ensures
        failures_among(stages)[k].node < stages.len(),
        stages[failures_among(stages)[k].node as int] == Stage::Failed(
            failures_among(stages)[k].reason,
        ),
    decreases stages.len(),
{
    if stages.len() > 0 {
        let front = stages.drop_last();
        if k < failures_among(front).len() {
            lemma_failures_sound(front, k);
        }
    }
}

/// Every node that failed is named in the list of failures.
pub proof fn lemma_failures_complete(stages: Seq<Stage>, node: int)
    requires
        stages.len() <= usize::MAX,
        0 <= node < stages.len(),
        stages[node] is Failed,
    ensures
        exists|k: int|
            0 <= k < failures_among(stages).len() && (#[trigger] failures_among(stages)[k]).node
                == node,
    decreases stages.len(),
{
    let front = stages.drop_last();
    let all = failures_among(stages);
    if node < stages.len() - 1 {
        lemma_failures_complete(front, node);
        let k = choose|k: int|
            0 <= k < failures_among(front).len() && (#[trigger] failures_among(front)[k]).node
                == node;
        assert(all[k].node == node);
    } else {
        assert(all[all.len() - 1].node == node);
    }
}

/// The list of failures names the nodes in their order, each once.
pub proof fn lemma_failures_ordered(stages: Seq<Stage>, k1: int, k2: int)
    requires
        stages.len() <= usize::MAX,
        0 <= k1 < k2 < failures_among(stages).len(),
    ensures
        failures_among(stages)[k1].node < failures_among(stages)[k2].node,
    decreases stages.len(),
{
    if stages.len() > 0 {
        let front = stages.drop_last();
        if k2 < failures_among(front).len() {
            lemma_failures_ordered(front, k1, k2);
        } else {
            lemma_failures_sound(front, k1);
        }
    }
}

/// Where every node is done, the list of failures is empty.
pub proof fn lemma_no_failures(stages: Seq<Stage>)
    requires
        all_done(stages),
    ensures
        failures_among(stages).len() == 0,
    decreases stages.len(),
{
    if stages.len() > 0 {
        let front = stages.drop_last();
        assert(stages[stages.len() - 1] == Stage::Done);
        assert forall|i: int| 0 <= i < front.len() implies #[trigger] front[i] == Stage::Done by {
            assert(stages[i] == Stage::Done);
        }
        lemma_no_failures(front);
    }
}

impl Engine {
    /// The nodes that have failed, with their reasons, in the order of the nodes.
    pub fn failures(&self) -> (r: Vec<Failure>)
        ensures
            r@ == failures_among(self@.stages),
    {
        let n = self.stages.len();
        let mut out: Vec<Failure> = Vec::new();
        let mut i: usize = 0;
        assert(self.stages@.take(0) =~= Seq::<Stage>::empty());
        while i < n
            invariant
                n == self.stages.len(),
                i <= n,
                out@ == failures_among(self.stages@.take(i as int)),
            decreases n - i,
        {
            assert(self.stages@.take(i + 1).drop_last() =~= self.stages@.take(i as int));
            if let Stage::Failed(reason) = self.stages[i] {
                out.push(Failure { node: i, reason });
            }
            i = i + 1;
        }
        assert(self.stages@.take(n as int) =~= self.stages@);
        out
    }

    /// The overall result: success where every node is done, otherwise
    /// the list of the nodes that failed.
    pub fn result(&self) -> (r: Result<(), Vec<Failure>>)
        ensures
            r is Ok <==> all_done(self@.stages),
            r is Err ==> r->Err_0@ == failures_among(self@.stages),
    {
        if self.exit_code() == 0 {
            Ok(())
        } else {
            Err(self.failures())
        }
    }

    /// The exit code that the deployment ends with.
    pub fn exit_code(&self) -> (r: i32)
        ensures
            r == exit_code_spec(self@.stages),
    {
        let n = self.stages.len();
        let mut all = true;
        let mut any = false;
        let mut i: usize = 0;
        while i < n
            invariant
                n == self.stages.len(),
                i <= n,
                all <==> forall|j: int| 0 <= j < i ==> #[trigger] self.stages@[j] == Stage::Done,
                any <==> exists|j: int| 0 <= j < i && #[trigger] self.stages@[j] == Stage::Done,
            decreases n - i,
        {
            if matches!(self.stages[i], Stage::Done) {
                any = true;
            } else {
                all = false;
            }
            i = i + 1;
        }
        if all {
            0
        } else if any {
            2
        } else {
            1
        }
    }
}

} // verus!
