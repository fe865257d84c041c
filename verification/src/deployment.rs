//! A deployment: the engine and the job monitor kept in step, so that
//! every piece of work that the engine starts has a job that reports it.

use crate::engine::{exit_code_spec, failures_among, Engine, EngineView, Failure, NodePolicy};
use crate::error::NixError;
use crate::goal::Goal;
use crate::job::{JobState, Signal};
use crate::monitor::{lemma_job_wf, lemma_signal_wf, JobMonitor, TreeView};
use crate::options::DeploySettings;
use crate::runs::lemma_poll;
use crate::stage::{JobType, Stage};
use vstd::prelude::*;

verus! {

/// The id of the job that groups all others.
pub const META_JOB: usize = 0;

/// Work to be done: the node, the stage whose work it is, and the job
/// that reports it.
#[derive(Clone, Copy, Debug, PartialEq, Eq, Structural)]
pub struct Work {
    /// The node, by its place in the list of nodes.
    pub node: usize,
    /// The stage that the node has entered.
    pub stage: Stage,
    /// The job that reports the work.
    pub job: usize,
}

/// Whether the tree is that of a deployment under way: it is in order, its
/// jobs can be counted, the job that groups all others runs, and every
/// other job lies directly below it.
pub open spec fn under_way(tree: TreeView) -> bool {
    &&& tree.wf()
    &&& 1 <= tree.len() <= usize::MAX
    &&& tree.states[0] == JobState::Running
    &&& forall|k: int| 1 <= k < tree.len() ==> #[trigger] tree.parents[k] == Some(0usize)
}

/// The tree with one running job more: the job for the work of `stage` on `node`.
pub open spec fn open_job(tree: TreeView, node: usize, stage: Stage, now: u64) -> TreeView {
    tree.after_job(Some(0usize), stage.job_type()->0, seq![node], now).after_signal(
        tree.len() as usize,
        Signal::Started,
        Seq::empty(),
        now,
    )
}

/// Whether a goal has work of a kind: a build evaluates and builds and
/// does nothing else, a push does not activate, and the goal to upload keys
/// uploads keys and does nothing else.
pub open spec fn kind_fits(goal: Goal, kind: JobType) -> bool {
    match goal {
        Goal::Build => kind == JobType::Evaluate || kind == JobType::Build,
        Goal::Push => kind != JobType::Activate && kind != JobType::Meta,
        Goal::UploadKeys => kind == JobType::UploadKeys,
        _ => kind != JobType::Meta,
    }
}

/// A deployment as a plain value.
pub struct DeploymentView {
    /// The engine.
    pub engine: EngineView,
    /// The tree of jobs.
    pub tree: TreeView,
    /// For every node, the job that reports the work going on for it.
    pub jobs: Seq<Option<usize>>,
}

impl DeploymentView {
    /// Whether a node and its job fit together: a node at work has a
    /// running job of the kind of its stage, which names the node alone; a
    /// node that is not at work has no job.
    pub open spec fn node_linked(self, i: int) -> bool {
        match self.jobs[i] {
            Some(j) => {
                &&& self.engine.stages[i].is_active()
                &&& 1 <= j < self.tree.len()
                &&& self.tree.states[j as int] == JobState::Running
                &&& Some(self.tree.types[j as int]) == self.engine.stages[i].job_type()
                &&& self.tree.nodes[j as int] == seq![i as usize]
            },
            None => !self.engine.stages[i].is_active(),
        }
    }

    /// What holds of every deployment: the engine is in order, the tree is
    /// that of a deployment under way, every node fits its job, and every
    /// job but the one that groups all others is of a kind that the goal has.
    pub open spec fn wf(self) -> bool {
        &&& self.engine.wf()
        &&& under_way(self.tree)
        &&& self.jobs.len() == self.engine.stages.len()
        &&& forall|i: int| 0 <= i < self.jobs.len() ==> #[trigger] self.node_linked(i)
        &&& forall|k: int|
            1 <= k < self.tree.len() ==> kind_fits(self.engine.goal, #[trigger] self.tree.types[k])
    }

    /// The deployment after a job was opened for every node among the
    /// first `upto` that is at work without one, with the work that the
    /// jobs report, in the order of the nodes.
    pub open spec fn reconcile(self, now: u64, upto: nat) -> (DeploymentView, Seq<Work>)
        decreases upto,
    {
        if upto == 0 {
            (self, Seq::empty())
        } else {
            let (d, works) = self.reconcile(now, (upto - 1) as nat);
            let i = upto - 1;
            if i < d.jobs.len() && d.jobs[i] is None && d.engine.stages[i].is_active() {
                let job = d.tree.len() as usize;
                let stage = d.engine.stages[i];
                (
                    DeploymentView {
                        tree: open_job(d.tree, i as usize, stage, now),
                        jobs: d.jobs.update(i, Some(job)),
                        ..d
                    },
                    works.push(Work { node: i as usize, stage, job }),
                )
            } else {
                (d, works)
            }
        }
    }

    /// One round of admissions by the engine, with a job opened for every
    /// node that was admitted.
    pub open spec fn poll(self, now: u64) -> (DeploymentView, Seq<Work>) {
        (DeploymentView { engine: self.engine.poll().0, ..self }).reconcile(now, self.jobs.len())
    }

    /// The deployment after the job of a node said something. A node
    /// without a job says nothing.
    pub open spec fn after_message(self, node: usize, text: Seq<char>, now: u64) -> DeploymentView {
        if node < self.jobs.len() && self.jobs[node as int] is Some {
            DeploymentView {
                tree: self.tree.after_signal(self.jobs[node as int]->0, Signal::Message, text, now),
                ..self
            }
        } else {
            self
        }
    }

    /// The deployment after the report on the work of a node: the job of
    /// that work ends as the work did, the engine takes the report, and
    /// where the node goes on at once a job is opened for its next work. A
    /// report on a node without a job changes nothing.
    pub open spec fn after_report(
        self,
        node: usize,
        result: Result<(), NixError>,
        profile_known: bool,
        now: u64,
    ) -> (DeploymentView, Option<Work>) {
        if node >= self.jobs.len() || self.jobs[node as int] is None {
            (self, None)
        } else {
            let closed = self.tree.after_signal(
                self.jobs[node as int]->0,
                Signal::ending(result),
                Seq::empty(),
                now,
            );
            let engine = self.engine.after_report(node, result, profile_known);
            match self.engine.next_work(node, result, profile_known) {
                Some(stage) => {
                    let job = closed.len() as usize;
                    (
                        DeploymentView {
                            engine,
                            tree: open_job(closed, node, stage, now),
                            jobs: self.jobs.update(node as int, Some(job)),
                        },
                        Some(Work { node, stage, job }),
                    )
                },
                None => (
                    DeploymentView {
                        engine,
                        tree: closed,
                        jobs: self.jobs.update(node as int, None),
                    },
                    None,
                ),
            }
        }
    }

    /// The deployment after cancellation. The jobs stay as they are: the
    /// nodes that fail at once had none.
    pub open spec fn after_cancel(self) -> DeploymentView {
        DeploymentView { engine: self.engine.after_cancel(), ..self }
    }

    /// How the job that groups all others ends: well where every node is
    /// done, otherwise with the error of the first node that failed.
    pub open spec fn outcome(self) -> Result<(), NixError> {
        let failures = failures_among(self.engine.stages);
        if failures.len() == 0 {
            Ok(())
        } else {
            Err(failures[0].reason)
        }
    }
}

/// In a deployment under way no job lies below a job other than the one
/// that groups all others.
pub proof fn lemma_nothing_below(tree: TreeView, k: int, job: int)
    requires
        under_way(tree),
        1 <= job,
    ensures
        !tree.under(k, job),
{
    reveal_with_fuel(TreeView::under, 2);
}

/// Opening a job adds a running job of the stage's kind for the node and
/// leaves the other jobs as they were.
pub proof fn lemma_open_job(tree: TreeView, node: usize, stage: Stage, now: u64)
    requires
        under_way(tree),
        tree.len() < usize::MAX,
        stage.is_active(),
    ensures
        ({
            let after = open_job(tree, node, stage, now);
            &&& under_way(after)
            &&& after.len() == tree.len() + 1
            &&& after.states[tree.len() as int] == JobState::Running
            &&& Some(after.types[tree.len() as int]) == stage.job_type()
            &&& after.nodes[tree.len() as int] == seq![node]
            &&& forall|k: int|
                0 <= k < tree.len() ==> #[trigger] after.states[k] == tree.states[k]
                    && after.types[k] == tree.types[k] && after.nodes[k] == tree.nodes[k]
        }),
{
    let created = tree.after_job(Some(0usize), stage.job_type()->0, seq![node], now);
    lemma_job_wf(tree, Some(0usize), stage.job_type()->0, seq![node], now);
    lemma_signal_wf(created, tree.len() as usize, Signal::Started, Seq::empty(), now);
    let after = open_job(tree, node, stage, now);
    assert(created.accepts(tree.len() as usize, Signal::Started));
    assert forall|k: int| 1 <= k < after.len() implies #[trigger] after.parents[k] == Some(
        0usize,
    ) by {
        if k < tree.len() {
            assert(tree.parents[k] == Some(0usize));
        }
    }
}

/// A signal to a job directly below the one that groups all others
/// touches that job alone.
pub proof fn lemma_signal_one_job(tree: TreeView, job: usize, signal: Signal, text: Seq<char>, now: u64)
    requires
        under_way(tree),
        1 <= job < tree.len(),
        tree.states[job as int] == JobState::Running,
    ensures
        ({
            let after = tree.after_signal(job, signal, text, now);
            &&& under_way(after)
            &&& after.len() == tree.len()
            &&& tree.accepts(job, signal) <==> signal != Signal::Started
            &&& tree.accepts(job, signal) ==> after.states[job as int]
                == tree.states[job as int].after(signal)->0
            &&& after.types == tree.types
            &&& after.nodes == tree.nodes
            &&& forall|k: int|
                0 <= k < tree.len() && k != job ==> #[trigger] after.states[k] == tree.states[k]
        }),
{
    lemma_signal_wf(tree, job, signal, text, now);
    let after = tree.after_signal(job, signal, text, now);
    if tree.accepts(job, signal) {
        assert forall|k: int| 0 <= k < tree.len() && k != job implies #[trigger] after.states[k]
            == tree.states[k] by {
            lemma_nothing_below(tree, k, job as int);
        }
    }
}

/// A deployment.
pub struct Deployment {
    engine: Engine,
    monitor: JobMonitor,
    jobs: Vec<Option<usize>>,
}

impl View for Deployment {
    type V = DeploymentView;

    closed spec fn view(&self) -> DeploymentView {
        DeploymentView { engine: self.engine@, tree: self.monitor@, jobs: self.jobs@ }
    }
}

impl Deployment {
    /// Whether the deployment is in order.
    pub closed spec fn wf(&self) -> bool {
        self.engine.wf() && self@.wf()
    }

    /// A deployment in order is one of which everything holds that holds
    /// of every deployment.
    pub proof fn lemma_wf(&self)
        requires
            self.wf(),
        ensures
            self@.wf(),
    {
    }

    /// The deployment at its start: the engine at its start, the tree with
    /// the one job that groups all others, which runs, and no node with a job.
    pub open spec fn initial(
        settings: DeploySettings,
        policies: Seq<NodePolicy>,
        suggested_chunk: usize,
        now: u64,
    ) -> DeploymentView {
        DeploymentView {
            engine: EngineView::initial(settings, policies, suggested_chunk),
            tree: JobMonitor::initial(now).after_signal(
                META_JOB,
                Signal::Started,
                Seq::empty(),
                now,
            ),
            jobs: Seq::new(policies.len(), |i: int| None),
        }
    }

    /// Begins a deployment to as many nodes as there are policies, at the
    /// time `now`. The goal to upload keys with the upload of keys switched
    /// off is refused before anything starts.
    pub fn new(
        settings: &DeploySettings,
        policies: Vec<NodePolicy>,
        suggested_chunk: usize,
        now: u64,
    ) -> (r: Result<Deployment, NixError>)
        ensures
            r is Err <==> settings.goal == Goal::UploadKeys && !settings.options.upload_keys,
            r is Err ==> r->Err_0 == NixError::KeysGoalWithoutKeys,
            r is Ok ==> r->Ok_0.wf() && r->Ok_0@ == Deployment::initial(
                *settings,
                policies@,
                suggested_chunk,
                now,
            ),
    {
        let n = policies.len();
        let ghost nodes = policies@;
        let engine = match Engine::new(settings, policies, suggested_chunk) {
            Ok(engine) => engine,
            Err(e) => {
                return Err(e);
            },
        };
        let mut monitor = JobMonitor::new(now);
        let _started = monitor.start(META_JOB, now);
        let mut jobs: Vec<Option<usize>> = Vec::new();
        let mut i: usize = 0;
        while i < n
            invariant
                i <= n,
                jobs.len() == i,
                forall|j: int| 0 <= j < i ==> jobs@[j] is None,
            decreases n - i,
        {
            jobs.push(None);
            i = i + 1;
        }
        assert(jobs@ =~= Seq::new(nodes.len(), |i: int| None));
        let deployment = Deployment { engine, monitor, jobs };
        proof {
            engine.lemma_wf();
            assert forall|i: int| 0 <= i < deployment@.jobs.len() implies #[trigger] deployment@.node_linked(
                i,
            ) by {
                assert(deployment@.engine.stages[i] == Stage::New);
            }
        }
        Ok(deployment)
    }

    /// The engine.
    pub fn engine(&self) -> (r: &Engine)
        ensures
            r@ == self@.engine,
            self.wf() ==> r.wf(),
    {
        &self.engine
    }

    /// The job monitor.
    pub fn monitor(&self) -> (r: &JobMonitor)
        ensures
            r@ == self@.tree,
            self.wf() ==> r.wf(),
    {
        &self.monitor
    }

    /// The job that reports the work going on for a node, if there is any.
    pub fn job(&self, node: usize) -> (r: Option<usize>)
        ensures
            r == (if node < self@.jobs.len() {
                self@.jobs[node as int]
            } else {
                None
            }),
    {
        if node < self.jobs.len() {
            self.jobs[node]
        } else {
            None
        }
    }
}

impl Deployment {
    /// Opens the job for the work of a stage on a node.
    fn open(&mut self, node: usize, stage: Stage, now: u64) -> (work: Work)
        requires
            old(self).engine.wf(),
            under_way(old(self).monitor@),
            node < old(self).jobs.len(),
            stage.is_active(),
        ensures
            final(self).engine.wf(),
            final(self).engine@ == old(self).engine@,
            final(self).monitor@ == open_job(old(self).monitor@, node, stage, now),
            final(self).jobs@ == old(self).jobs@.update(node as int, Some(work.job)),
            work == (Work { node, stage, job: old(self).monitor@.len() as usize }),
            old(self).monitor@.len() < usize::MAX,
    {
        let job_type = match stage.job_type() {
            Some(job_type) => job_type,
            None => JobType::Meta,
        };
        let mut nodes: Vec<usize> = Vec::new();
        nodes.push(node);
        assert(nodes@ =~= seq![node]);
        let job = match self.monitor.create_job(META_JOB, job_type, nodes, now) {
            Ok(job) => job,
            Err(_) => META_JOB,
        };
        let _started = self.monitor.start(job, now);
        let _jobs = self.monitor.len();
        self.jobs.set(node, Some(job));
        Work { node, stage, job }
    }

    /// One round of admissions by the engine. Says what work is to be
    /// started, with the job that reports it, in the order of the nodes.
    pub fn poll(&mut self, now: u64) -> (works: Vec<Work>)
        requires
            old(self).wf(),
        ensures
            final(self).wf(),
            (final(self)@, works@) == old(self)@.poll(now),
    {
        proof {
            self.engine.lemma_wf();
            lemma_poll(self.engine@);
        }
        let _admitted = self.engine.poll();
        let n = self.jobs.len();
        let ghost start = self@;
        proof {
            self.engine.lemma_wf();
            assert forall|k: int| 0 <= k < n && start.jobs[k] is Some implies start.node_linked(
                k,
            ) by {
                assert(old(self)@.node_linked(k));
            }
        }
        let mut works: Vec<Work> = Vec::new();
        let mut i: usize = 0;
        while i < n
            invariant
                self.engine.wf(),
                self.engine@ == start.engine,
                start.engine.wf(),
                under_way(self.monitor@),
                n == self.jobs.len(),
                n == start.engine.stages.len(),
                n == start.jobs.len(),
                i <= n,
                (self@, works@) == start.reconcile(now, i as nat),
                forall|k: int| 0 <= k < i ==> #[trigger] self@.node_linked(k),
                forall|k: int| i <= k < n ==> self.jobs@[k] == start.jobs[k],
                forall|k: int| i <= k < n && start.jobs[k] is Some ==> #[trigger] self@.node_linked(k),
                forall|k: int|
                    1 <= k < self.monitor@.len() ==> kind_fits(
                        start.engine.goal,
                        #[trigger] self.monitor@.types[k],
                    ),
            decreases n - i,
        {
            let stage = match self.engine.stage(i) {
                Some(stage) => stage,
                None => Stage::Done,
            };
            if self.jobs[i].is_none() && stage.is_active() {
                let ghost before = self@;
                let work = self.open(i, stage, now);
                works.push(work);
                proof {
                    lemma_open_job(before.tree, i, stage, now);
                    start.engine.lemma_stage_fits(i as int);
                    assert forall|k: int| 0 <= k < n && (k <= i || start.jobs[k] is Some) implies #[trigger] self@.node_linked(
                        k,
                    ) by {
                        if k != i {
                            assert(before.node_linked(k));
                        }
                    }
                    assert forall|k: int| 1 <= k < self.monitor@.len() implies kind_fits(
                        start.engine.goal,
                        #[trigger] self.monitor@.types[k],
                    ) by {
                        if k < before.tree.len() {
                            assert(self.monitor@.types[k] == before.tree.types[k]);
                        }
                    }
                }
            }
            i = i + 1;
        }
        works
    }

    /// Takes what the job of a node has to say. Says whether the node has
    /// a job to say it.
    pub fn message(&mut self, node: usize, text: String, now: u64) -> (sent: bool)
        requires
            old(self).wf(),
        ensures
            final(self).wf(),
            final(self)@ == old(self)@.after_message(node, text@, now),
            sent == (node < old(self)@.jobs.len() && old(self)@.jobs[node as int] is Some),
    {
        if node >= self.jobs.len() {
            return false;
        }
        match self.jobs[node] {
            Some(job) => {
                let ghost before = self@;
                proof {
                    assert(before.node_linked(node as int));
                    lemma_signal_one_job(before.tree, job, Signal::Message, text@, now);
                }
                let _taken = self.monitor.message(job, text, now);
                proof {
                    assert forall|k: int| 0 <= k < self@.jobs.len() implies #[trigger] self@.node_linked(
                        k,
                    ) by {
                        assert(before.node_linked(k));
                    }
                    assert forall|k: int| 1 <= k < self@.tree.len() implies kind_fits(
                        self@.engine.goal,
                        #[trigger] self@.tree.types[k],
                    ) by {
                        assert(kind_fits(before.engine.goal, before.tree.types[k]));
                    }
                }
                true
            },
            None => false,
        }
    }

    /// Takes the report on the work of a node: how it ended and, for what
    /// it is worth after a build, whether the node knows the derivation of
    /// its live profile. The job of the work ends as the work did. Says what
    /// work is to be started for the node at once, with the job that
    /// reports it.
    pub fn complete(
        &mut self,
        node: usize,
        result: Result<(), NixError>,
        profile_known: bool,
        now: u64,
    ) -> (next: Option<Work>)
        requires
            old(self).wf(),
        ensures
            final(self).wf(),
            (final(self)@, next) == old(self)@.after_report(node, result, profile_known, now),
    {
        if node >= self.jobs.len() {
            return None;
        }
        let job = match self.jobs[node] {
            Some(job) => job,
            None => {
                return None;
            },
        };
        let ghost before = self@;
        let signal = match result {
            Ok(_) => Signal::Succeeded,
            Err(e) => Signal::Failed(e),
        };
        proof {
            self.engine.lemma_wf();
            assert(before.node_linked(node as int));
            lemma_signal_one_job(before.tree, job, signal, Seq::empty(), now);
            crate::runs::lemma_report_wf(before.engine, node, result, profile_known);
        }
        let _ended = self.monitor.finish(job, result, now);
        let ghost closed = self.monitor@;
        let next = self.engine.complete(node, result, profile_known);
        let work = match next {
            Some(stage) => {
                let work = self.open(node, stage, now);
                proof {
                    lemma_open_job(closed, node, stage, now);
                    self.engine@.lemma_stage_fits(node as int);
                }
                Some(work)
            },
            None => {
                self.jobs.set(node, None);
                None
            },
        };
        proof {
            assert forall|k: int| 0 <= k < self@.jobs.len() implies #[trigger] self@.node_linked(
                k,
            ) by {
                if k != node {
                    assert(before.node_linked(k));
                    if before.jobs[k] is Some {
                        assert(seq![k as usize][0] == k);
                        assert(seq![node][0] == node);
                        assert(before.jobs[k]->0 != job);
                    }
                }
            }
            assert forall|k: int| 1 <= k < self@.tree.len() implies kind_fits(
                self@.engine.goal,
                #[trigger] self@.tree.types[k],
            ) by {
                if k < before.tree.len() {
                    assert(kind_fits(before.engine.goal, before.tree.types[k]));
                }
            }
        }
        work
    }

    /// Cancels the deployment. Every node that waits for a permit fails as
    /// cancelled at once; work that is going on is left to finish.
    pub fn cancel(&mut self)
        requires
            old(self).wf(),
        ensures
            final(self).wf(),
            final(self)@ == old(self)@.after_cancel(),
    {
        let ghost before = self@;
        self.engine.cancel();
        proof {
            self.engine.lemma_wf();
            assert forall|k: int| 0 <= k < self@.jobs.len() implies #[trigger] self@.node_linked(
                k,
            ) by {
                assert(before.node_linked(k));
            }
            assert forall|k: int| 1 <= k < self@.tree.len() implies kind_fits(
                self@.engine.goal,
                #[trigger] self@.tree.types[k],
            ) by {
                assert(kind_fits(before.engine.goal, before.tree.types[k]));
            }
        }
    }

    /// Whether every node's deployment has ended.
    pub fn finished(&self) -> (r: bool)
        ensures
            r == self@.engine.finished(),
    {
        self.engine.finished()
    }

    /// Ends the deployment: the job that groups all others ends, well
    /// where every node is done and otherwise with the error of the first
    /// node that failed, and every job that still runs is closed with it,
    /// so that no job is left open. Gives the tree of jobs, the nodes that
    /// failed and the exit code.
    pub fn finish(self, now: u64) -> (r: (JobMonitor, Vec<Failure>, i32))
        requires
            self.wf(),
        ensures
            r.0.wf(),
            r.0@ == self@.tree.after_signal(
                META_JOB,
                Signal::ending(self@.outcome()),
                Seq::empty(),
                now,
            ),
            forall|job: int| 0 <= job < r.0@.len() ==> (#[trigger] r.0@.states[job]).is_terminal(),
            r.1@ == failures_among(self@.engine.stages),
            r.2 == exit_code_spec(self@.engine.stages),
    {
        let failures = self.engine.failures();
        let exit_code = self.engine.exit_code();
        let outcome = if failures.len() == 0 {
            Ok(())
        } else {
            Err(failures[0].reason)
        };
        let mut monitor = self.monitor;
        let ghost before = monitor@;
        let _ended = monitor.finish(META_JOB, outcome, now);
        proof {
            let signal = Signal::ending(outcome);
            assert(before.accepts(META_JOB, signal));
            assert forall|job: int| 0 <= job < monitor@.len() implies (#[trigger] monitor@.states[job]).is_terminal() by {
                if job >= 1 && !before.states[job].is_terminal() {
                    assert(before.parents[job] == Some(0usize));
                    assert(before.under(job, 0));
                    assert(before.closes(job, META_JOB, signal));
                }
            }
        }
        (monitor, failures, exit_code)
    }
}

/// Each job of a deployment is of a kind that the goal has: under the goal
/// to build no job pushes, activates or uploads keys; under the goal to
/// push no job activates; under the goal to upload keys every job uploads
/// keys. And each node at work has a running job of the kind of its stage.
pub proof fn lemma_jobs_fit_goal(d: DeploymentView, job: int)
    requires
        d.wf(),
        1 <= job < d.tree.len(),
    ensures
        kind_fits(d.engine.goal, d.tree.types[job]),
        d.engine.goal == Goal::Build ==> d.tree.types[job] != JobType::Push && d.tree.types[job]
            != JobType::Activate && d.tree.types[job] != JobType::UploadKeys,
        d.engine.goal == Goal::Push ==> d.tree.types[job] != JobType::Activate,
        d.engine.goal == Goal::UploadKeys ==> d.tree.types[job] == JobType::UploadKeys,
{
}

} // verus!
