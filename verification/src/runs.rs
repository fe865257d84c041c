//! Runs of the engine: what holds of it after any sequence of reports,
//! rounds of admissions and cancellations.

use crate::engine::{first_new, EngineView, NodePolicy, Start};
use crate::error::NixError;
use crate::goal::Goal;
use crate::options::DeploySettings;
use crate::stage::{count_in, lemma_count_update, lemma_reachable_after_report, Gate, Stage};
use vstd::prelude::*;

verus! {

/// Something that happens to the engine.
pub enum Event {
    /// The work of a node's stage has ended.
    Report {
        /// The node.
        node: usize,
        /// How the work ended.
        result: Result<(), NixError>,
        /// Whether the node knows the derivation of its live profile.
        profile_known: bool,
    },
    /// A round of admissions.
    Poll,
    /// The deployment is cancelled.
    Cancel,
}

impl EngineView {
    /// The engine after an event.
    pub open spec fn after(self, event: Event) -> EngineView {
        match event {
            Event::Report { node, result, profile_known } => self.after_report(
                node,
                result,
                profile_known,
            ),
            Event::Poll => self.poll().0,
            Event::Cancel => self.after_cancel(),
        }
    }

    /// The engine after a sequence of events.
    pub open spec fn after_all(self, events: Seq<Event>) -> EngineView
        decreases events.len(),
    {
        if events.len() == 0 {
            self
        } else {
            self.after_all(events.drop_last()).after(events.last())
        }
    }

    /// Whether no node but `node` has failed.
    pub open spec fn none_failed_but(self, node: usize) -> bool {
        forall|j: int|
            0 <= j < self.stages.len() && j != node ==> !((#[trigger] self.stages[j]) is Failed)
    }
}

/// Whether the events hold no cancellation and no bad news about any node
/// but `node`: every report on another node says that the work succeeded
/// and that the node knows the derivation of its live profile.
pub open spec fn spares_others(events: Seq<Event>, node: usize) -> bool {
    forall|k: int|
        0 <= k < events.len() ==> match #[trigger] events[k] {
            Event::Report { node: other, result, profile_known } => other == node || (result is Ok
                && profile_known),
            Event::Poll => true,
            Event::Cancel => false,
        }
}

/// The first `New` node is `New`, and no node before it is.
pub proof fn lemma_first_new_found(stages: Seq<Stage>)
    ensures
        0 <= first_new(stages) <= stages.len(),
        first_new(stages) < stages.len() ==> stages[first_new(stages)] == Stage::New,
        forall|j: int| 0 <= j < first_new(stages) ==> stages[j] != Stage::New,
    decreases stages.len(),
{
    if stages.len() > 0 {
        lemma_first_new_found(stages.drop_last());
        assert forall|j: int| 0 <= j < first_new(stages) implies stages[j] != Stage::New by {
            if j < stages.len() - 1 {
                assert(stages.drop_last()[j] == stages[j]);
            }
        }
    }
}

/// Where every node is `New`, no permit is held.
pub proof fn lemma_count_all_new(n: nat, gate: Gate)
    ensures
        count_in(Seq::new(n, |i: int| Stage::New), gate) == 0,
    decreases n,
{
    if n > 0 {
        lemma_count_all_new((n - 1) as nat, gate);
        assert(Seq::new(n, |i: int| Stage::New).drop_last() =~= Seq::new(
            (n - 1) as nat,
            |i: int| Stage::New,
        ));
    }
}

/// The engine is in order at the start of every deployment that is not
/// refused.
pub proof fn lemma_initial_wf(
    settings: DeploySettings,
    policies: Seq<NodePolicy>,
    suggested_chunk: usize,
)
    requires
        settings.goal == Goal::UploadKeys ==> settings.options.upload_keys,
        policies.len() <= usize::MAX,
    ensures
        EngineView::initial(settings, policies, suggested_chunk).wf(),
        !EngineView::initial(settings, policies, suggested_chunk).cancelled,
        forall|node: usize|
            EngineView::initial(settings, policies, suggested_chunk).none_failed_but(node),
{
    reveal(EngineView::wf);
    lemma_count_all_new(policies.len(), Gate::Evaluation);
    lemma_count_all_new(policies.len(), Gate::Apply);
}

/// A report leaves the engine in order.
pub proof fn lemma_report_wf(
    v: EngineView,
    node: usize,
    result: Result<(), NixError>,
    profile_known: bool,
)
    requires
        v.wf(),
    ensures
        v.after_report(node, result, profile_known).wf(),
{
    reveal(EngineView::wf);
    if node < v.stages.len() {
        let before = v.stages[node as int];
        let stage = v.stage_after_report(node, result, profile_known);
        let after = v.after_report(node, result, profile_known);
        if stage == before {
            assert(v.stages.update(node as int, stage) =~= v.stages);
        } else {
            lemma_count_update(v.stages, node as int, stage, Gate::Evaluation);
            lemma_count_update(v.stages, node as int, stage, Gate::Apply);
            lemma_reachable_after_report(
                before,
                result,
                profile_known,
                v.goal,
                v.keys_pre(node as int),
                v.keys_post(node as int),
                v.policies[node as int].replace_unknown_profiles,
                v.options.force_replace_unknown_profiles,
                v.cancelled,
            );
            assert forall|i: int|
                0 <= i < after.stages.len() && #[trigger] after.stages[i]
                    == Stage::Queued implies after.queue.contains(i as usize) by {
                if i == node {
                    assert(after.queue[after.queue.len() - 1] == node);
                } else {
                    assert(v.stages[i] == Stage::Queued);
                    let k = choose|k: int| 0 <= k < v.queue.len() && v.queue[k] == i as usize;
                    assert(after.queue[k] == i as usize);
                }
            }
        }
    }
}

/// Starting a `New` node leaves the engine in order.
pub proof fn lemma_admit_new_wf(v: EngineView)
    requires
        v.wf(),
    ensures
        v.admit_new().0.wf(),
{
    reveal(EngineView::wf);
    lemma_first_new_found(v.stages);
    let i = first_new(v.stages);
    if v.can_start() && i < v.stages.len() {
        let stage = Stage::New.next(v.goal, v.keys_pre(i), v.keys_post(i));
        let after = v.admit_new().0;
        lemma_count_update(v.stages, i, stage, Gate::Evaluation);
        lemma_count_update(v.stages, i, stage, Gate::Apply);
        assert forall|j: int|
            0 <= j < after.stages.len() && #[trigger] after.stages[j]
                == Stage::Queued implies after.queue.contains(j as usize) by {
            assert(v.stages[j] == Stage::Queued);
        }
    }
}

/// Letting the head of the queue be pushed to leaves the engine in order.
pub proof fn lemma_admit_apply_wf(v: EngineView)
    requires
        v.wf(),
    ensures
        v.admit_apply().0.wf(),
{
    reveal(EngineView::wf);
    if v.can_push() {
        let node = v.queue[0];
        let after = v.admit_apply().0;
        lemma_count_update(v.stages, node as int, Stage::Pushing, Gate::Evaluation);
        lemma_count_update(v.stages, node as int, Stage::Pushing, Gate::Apply);
        assert forall|k: int| 0 <= k < after.queue.len() implies (#[trigger] after.queue[k])
            < after.stages.len() && after.stages[after.queue[k] as int] == Stage::Queued by {
            assert(after.queue[k] == v.queue[k + 1]);
        }
        assert forall|k1: int, k2: int| 0 <= k1 < k2 < after.queue.len() implies after.queue[k1]
            != after.queue[k2] by {
            assert(after.queue[k1] == v.queue[k1 + 1]);
            assert(after.queue[k2] == v.queue[k2 + 1]);
        }
        assert forall|j: int|
            0 <= j < after.stages.len() && #[trigger] after.stages[j]
                == Stage::Queued implies after.queue.contains(j as usize) by {
            assert(v.stages[j] == Stage::Queued);
            let k = choose|k: int| 0 <= k < v.queue.len() && v.queue[k] == j as usize;
            assert(j != node);
            assert(after.queue[k - 1] == j as usize);
        }
    }
}

/// What admissions change and what they leave alone: the engine stays in
/// order, its settings and the cancellation stay as they were, and the only
/// nodes that change are nodes that waited and now are at work.
pub open spec fn admitted(before: EngineView, after: EngineView) -> bool {
    &&& after.wf()
    &&& after.cancelled == before.cancelled
    &&& after.goal == before.goal
    &&& after.options == before.options
    &&& after.policies == before.policies
    &&& after.eval_permits == before.eval_permits
    &&& after.apply_permits == before.apply_permits
    &&& after.stages.len() == before.stages.len()
    &&& forall|j: int|
        0 <= j < after.stages.len() ==> #[trigger] after.stages[j] == before.stages[j] || (
        before.stages[j].is_idle() && after.stages[j].is_active())
}

/// Starting up to `k` nodes only admits.
pub proof fn lemma_admit_new_up_to(v: EngineView, k: nat, started: Seq<Start>)
    requires
        v.wf(),
    ensures
        admitted(v, v.admit_new_up_to(k, started).0),
    decreases k,
{
    if k > 0 {
        lemma_first_new_found(v.stages);
        lemma_admit_new_wf(v);
        if v.admit_new().1 is Some {
            let next = v.admit_new().0;
            lemma_admit_new_up_to(next, (k - 1) as nat, started.push(v.admit_new().1->0));
            let last = next.admit_new_up_to((k - 1) as nat, started.push(v.admit_new().1->0)).0;
            assert forall|j: int| 0 <= j < last.stages.len() implies #[trigger] last.stages[j]
                == v.stages[j] || (v.stages[j].is_idle() && last.stages[j].is_active()) by {
                assert(last.stages[j] == next.stages[j] || (next.stages[j].is_idle()
                    && last.stages[j].is_active()));
            }
        }
    }
}

/// Letting queued nodes be pushed to only admits.
pub proof fn lemma_admit_apply_all(v: EngineView, started: Seq<Start>)
    requires
        v.wf(),
    ensures
        admitted(v, v.admit_apply_all(started).0),
    decreases v.queue.len(),
{
    if v.can_push() {
        v.lemma_wf_basics();
        lemma_admit_apply_wf(v);
        let next = v.admit_apply().0;
        lemma_admit_apply_all(next, started.push(v.admit_apply().1->0));
        let last = next.admit_apply_all(started.push(v.admit_apply().1->0)).0;
        assert forall|j: int| 0 <= j < last.stages.len() implies #[trigger] last.stages[j]
            == v.stages[j] || (v.stages[j].is_idle() && last.stages[j].is_active()) by {
            assert(last.stages[j] == next.stages[j] || (next.stages[j].is_idle()
                && last.stages[j].is_active()));
        }
    }
}

/// A round of admissions only admits.
pub proof fn lemma_poll(v: EngineView)
    requires
        v.wf(),
    ensures
        admitted(v, v.poll().0),
{
    lemma_admit_new_up_to(v, v.round_limit(), Seq::empty());
    let (middle, started) = v.admit_new_up_to(v.round_limit(), Seq::empty());
    lemma_admit_apply_all(middle, started);
    let last = middle.admit_apply_all(started).0;
    assert forall|j: int| 0 <= j < last.stages.len() implies #[trigger] last.stages[j]
        == v.stages[j] || (v.stages[j].is_idle() && last.stages[j].is_active()) by {
        assert(last.stages[j] == middle.stages[j] || (middle.stages[j].is_idle()
            && last.stages[j].is_active()));
        assert(middle.stages[j] == v.stages[j] || (v.stages[j].is_idle()
            && middle.stages[j].is_active()));
    }
}

/// Failing the nodes that wait frees no permit and takes none.
pub proof fn lemma_count_after_cancel(v: EngineView, gate: Gate)
    ensures
        count_in(v.after_cancel().stages, gate) == count_in(v.stages, gate),
    decreases v.stages.len(),
{
    if v.stages.len() > 0 {
        let shorter = EngineView { stages: v.stages.drop_last(), ..v };
        lemma_count_after_cancel(shorter, gate);
        assert(v.after_cancel().stages.drop_last() =~= shorter.after_cancel().stages);
    }
}

/// Cancellation leaves the engine in order.
pub proof fn lemma_cancel_wf(v: EngineView)
    requires
        v.wf(),
    ensures
        v.after_cancel().wf(),
{
    reveal(EngineView::wf);
    lemma_count_after_cancel(v, Gate::Evaluation);
    lemma_count_after_cancel(v, Gate::Apply);
}

/// Whatever happens, the engine stays in order.
pub proof fn lemma_run_wf(v: EngineView, events: Seq<Event>)
    requires
        v.wf(),
    ensures
        v.after_all(events).wf(),
    decreases events.len(),
{
    if events.len() > 0 {
        lemma_run_wf(v, events.drop_last());
        let before = v.after_all(events.drop_last());
        match events.last() {
            Event::Report { node, result, profile_known } => {
                lemma_report_wf(before, node, result, profile_known);
            },
            Event::Poll => {
                lemma_poll(before);
            },
            Event::Cancel => {
                lemma_cancel_wf(before);
            },
        }
    }
}

/// At any instant of any deployment, no more nodes are being pushed to or
/// activated than the deployment limit allows, and no more nodes are being
/// evaluated than the evaluation limit allows.
pub proof fn lemma_bounded_concurrency(
    settings: DeploySettings,
    policies: Seq<NodePolicy>,
    suggested_chunk: usize,
    events: Seq<Event>,
)
    requires
        settings.goal == Goal::UploadKeys ==> settings.options.upload_keys,
        policies.len() <= usize::MAX,
    ensures
        ({
            let now = EngineView::initial(settings, policies, suggested_chunk).after_all(
                events,
            );
            &&& count_in(now.stages, Gate::Apply) <= now.apply_permits
            &&& count_in(now.stages, Gate::Evaluation) <= now.eval_permits
        }),
{
    reveal(EngineView::wf);
    lemma_initial_wf(settings, policies, suggested_chunk);
    lemma_run_wf(EngineView::initial(settings, policies, suggested_chunk), events);
}

/// The settings of a deployment never change while it runs.
pub proof fn lemma_settings_kept(v: EngineView, events: Seq<Event>)
    requires
        v.wf(),
    ensures
        v.after_all(events).goal == v.goal,
        v.after_all(events).options == v.options,
        v.after_all(events).policies == v.policies,
        v.after_all(events).stages.len() == v.stages.len(),
        v.after_all(events).eval_permits == v.eval_permits,
        v.after_all(events).apply_permits == v.apply_permits,
    decreases events.len(),
{
    if events.len() > 0 {
        lemma_settings_kept(v, events.drop_last());
        lemma_run_wf(v, events.drop_last());
        let before = v.after_all(events.drop_last());
        match events.last() {
            Event::Report { node, result, profile_known } => {},
            Event::Poll => {
                lemma_poll(before);
            },
            Event::Cancel => {},
        }
    }
}

/// At any instant of any deployment, every node is in a stage that belongs
/// to the goal. Under the goal to build no node is ever pushed to or
/// activated, and no keys are uploaded. Under the goal to push no node is
/// ever activated. Under the goal to upload keys no node is ever evaluated,
/// built, pushed to or activated: only the keys that are due before
/// activation are uploaded.
pub proof fn lemma_goal_skips(
    settings: DeploySettings,
    policies: Seq<NodePolicy>,
    suggested_chunk: usize,
    events: Seq<Event>,
    node: int,
)
    requires
        settings.goal == Goal::UploadKeys ==> settings.options.upload_keys,
        policies.len() <= usize::MAX,
        0 <= node < policies.len(),
    ensures
        ({
            let now = EngineView::initial(settings, policies, suggested_chunk).after_all(
                events,
            );
            let stage = now.stages[node];
            &&& now.stages.len() == policies.len()
            &&& stage.reachable(settings.goal, now.keys_pre(node), now.keys_post(node))
            &&& settings.goal == Goal::Build ==> stage != Stage::Pushing && stage
                != Stage::Activating && stage != Stage::Queued && stage != Stage::KeysPre && stage
                != Stage::KeysPost
            &&& settings.goal == Goal::Push ==> stage != Stage::Activating && stage
                != Stage::KeysPost
            &&& settings.goal == Goal::UploadKeys ==> stage != Stage::Evaluating && stage
                != Stage::Built && stage != Stage::Queued && stage != Stage::Pushing && stage
                != Stage::Activating && stage != Stage::KeysPost
        }),
{
    reveal(EngineView::wf);
    let start = EngineView::initial(settings, policies, suggested_chunk);
    lemma_initial_wf(settings, policies, suggested_chunk);
    lemma_run_wf(start, events);
    lemma_settings_kept(start, events);
}

/// A report on one node changes the stage of no other node.
pub proof fn lemma_report_touches_one_node(
    v: EngineView,
    node: usize,
    result: Result<(), NixError>,
    profile_known: bool,
    other: int,
)
    requires
        0 <= other < v.stages.len(),
        other != node,
    ensures
        v.after_report(node, result, profile_known).stages[other] == v.stages[other],
{
}

/// Cancellation fails exactly the nodes that wait, as cancelled, and
/// changes the stage of no other node.
pub proof fn lemma_cancel_fails_the_waiting(v: EngineView, node: int)
    requires
        0 <= node < v.stages.len(),
    ensures
        v.after_cancel().stages[node] == (if v.stages[node].is_idle() {
            Stage::Failed(NixError::Cancelled)
        } else {
            v.stages[node]
        }),
{
}

/// One node's failure is its own. In a deployment that is not cancelled,
/// whatever is reported on one node, no other node fails as long as its own
/// work succeeds and it knows the derivation of its live profile.
pub proof fn lemma_isolation(v: EngineView, events: Seq<Event>, node: usize)
    requires
        v.wf(),
        !v.cancelled,
        v.none_failed_but(node),
        spares_others(events, node),
    ensures
        !v.after_all(events).cancelled,
        v.after_all(events).none_failed_but(node),
    decreases events.len(),
{
    if events.len() > 0 {
        let earlier = events.drop_last();
        assert forall|k: int| 0 <= k < earlier.len() implies match #[trigger] earlier[k] {
            Event::Report { node: other, result, profile_known } => other == node || (result is Ok
                && profile_known),
            Event::Poll => true,
            Event::Cancel => false,
        } by {
            assert(earlier[k] == events[k]);
        }
        lemma_isolation(v, earlier, node);
        lemma_run_wf(v, earlier);
        let before = v.after_all(earlier);
        let after = before.after(events.last());
        assert(events[events.len() - 1] == events.last());
        match events.last() {
            Event::Report { node: other, result, profile_known } => {
                assert forall|j: int|
                    0 <= j < after.stages.len() && j != node implies !((
                    #[trigger] after.stages[j]) is Failed) by {
                    assert(!(before.stages[j] is Failed));
                }
            },
            Event::Poll => {
                lemma_poll(before);
                assert forall|j: int|
                    0 <= j < after.stages.len() && j != node implies !((
                    #[trigger] after.stages[j]) is Failed) by {
                    assert(!(before.stages[j] is Failed));
                    assert(after.stages[j] == before.stages[j] || after.stages[j].is_active());
                }
            },
            Event::Cancel => {},
        }
    }
}

/// Where one node at most has failed and every node's deployment has
/// ended, every other node is done.
pub proof fn lemma_others_done(v: EngineView, node: usize, other: int)
    requires
        v.none_failed_but(node),
        v.finished(),
        0 <= other < v.stages.len(),
        other != node,
    ensures
        v.stages[other] == Stage::Done,
{
}

/// The place of a stage on the way from `New` to the end.
pub open spec fn rank(stage: Stage) -> nat {
    match stage {
        Stage::New => 0,
        Stage::Evaluating => 1,
        Stage::Built => 2,
        Stage::KeysPre => 3,
        Stage::Queued => 4,
        Stage::Pushing => 5,
        Stage::Activating => 6,
        Stage::KeysPost => 7,
        Stage::Done => 8,
        Stage::Failed(_) => 8,
    }
}

/// A node never goes back: every report on a node at work takes it
/// further on its way, and every admission does.
pub proof fn lemma_progress(
    stage: Stage,
    result: Result<(), NixError>,
    profile_known: bool,
    goal: Goal,
    keys_pre: bool,
    keys_post: bool,
    replace_unknown: bool,
    force_replace: bool,
    cancelled: bool,
)
    ensures
        !stage.is_terminal() ==> rank(stage.next(goal, keys_pre, keys_post)) > rank(stage),
        stage.is_active() ==> rank(
            stage.after_report(
                result,
                profile_known,
                goal,
                keys_pre,
                keys_post,
                replace_unknown,
                force_replace,
                cancelled,
            ),
        ) > rank(stage),
        stage.is_terminal() ==> stage.after_report(
            result,
            profile_known,
            goal,
            keys_pre,
            keys_post,
            replace_unknown,
            force_replace,
            cancelled,
        ) == stage,
{
}

/// No node is activated before its keys are there. A node comes to be
/// activated only from the push, to the push only from the queue, and into
/// the queue only when the keys that are due before activation were
/// uploaded, or when it has none to upload.
pub proof fn lemma_keys_before_activation(
    stage: Stage,
    result: Result<(), NixError>,
    profile_known: bool,
    goal: Goal,
    keys_pre: bool,
    keys_post: bool,
    replace_unknown: bool,
    force_replace: bool,
    cancelled: bool,
)
    ensures
        ({
            let after = stage.after_report(
                result,
                profile_known,
                goal,
                keys_pre,
                keys_post,
                replace_unknown,
                force_replace,
                cancelled,
            );
            &&& after == Stage::Activating && stage != after ==> stage == Stage::Pushing && result is Ok
            &&& after == Stage::Pushing ==> stage == Stage::Pushing
            &&& after == Stage::Queued && stage != after ==> result is Ok && (stage == Stage::KeysPre
                || (stage == Stage::Built && !keys_pre))
            &&& after == Stage::KeysPost && stage != after ==> stage == Stage::Activating && result is Ok
        }),
{
}

} // verus!
