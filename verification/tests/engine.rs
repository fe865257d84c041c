use colmena::engine::{Engine, Failure, NodePolicy, Start};
use colmena::error::{ErrorKind, NixError};
use colmena::goal::Goal;
use colmena::options::DeployFlags;
use colmena::stage::{JobType, Stage};

const ALPHA: usize = 0;
const BETA: usize = 1;
const GAMMA: usize = 2;
const DELTA: usize = 3;

fn flags(goal: &str, parallel: &str, eval_node_limit: &str) -> DeployFlags {
    DeployFlags {
        goal: goal.to_string(),
        parallel: parallel.to_string(),
        eval_node_limit: eval_node_limit.to_string(),
        keep_result: false,
        verbose: false,
        no_keys: false,
        no_substitutes: false,
        no_gzip: false,
        force_replace_unknown_profiles: false,
    }
}

fn plain() -> NodePolicy {
    NodePolicy { replace_unknown_profiles: false, pre_keys: false, post_keys: false }
}

fn engine(f: &DeployFlags, policies: Vec<NodePolicy>) -> Engine {
    let settings = f.settings(policies.len()).unwrap();
    Engine::new(&settings, policies, 2).unwrap()
}

fn count(engine: &Engine, wanted: &[Stage]) -> usize {
    (0..engine.len()).filter(|&i| wanted.contains(&engine.stage(i).unwrap())).count()
}

/// What a run showed: every piece of work that was started, and the most
/// nodes that were ever evaluated, or pushed to and activated, at once.
struct Seen {
    started: Vec<Start>,
    most_evaluating: usize,
    most_applying: usize,
    most_pushing: usize,
}

impl Seen {
    fn new() -> Seen {
        Seen { started: Vec::new(), most_evaluating: 0, most_applying: 0, most_pushing: 0 }
    }

    fn look(&mut self, engine: &Engine) {
        self.most_evaluating = self.most_evaluating.max(count(engine, &[Stage::Evaluating]));
        self.most_applying =
            self.most_applying.max(count(engine, &[Stage::Pushing, Stage::Activating]));
        self.most_pushing = self.most_pushing.max(count(engine, &[Stage::Pushing]));
    }

    fn job_types(&self) -> Vec<JobType> {
        self.started.iter().map(|s| s.stage.job_type().unwrap()).collect()
    }
}

/// Runs the engine for as long as there is work that is not held back.
/// `outcome` says how the work of a stage ends for a node and whether the
/// node knows its profile; work in the stage `hold` is started and left
/// unfinished, and handed back.
fn run(
    engine: &mut Engine,
    seen: &mut Seen,
    outcome: &dyn Fn(usize, Stage) -> (Result<(), NixError>, bool),
    hold: Option<Stage>,
) -> Vec<Start> {
    let mut work: Vec<Start> = Vec::new();
    let mut held: Vec<Start> = Vec::new();
    loop {
        let admitted = engine.poll();
        seen.look(engine);
        seen.started.extend(admitted.iter().copied());
        work.extend(admitted);
        if work.is_empty() {
            return held;
        }
        let start = work.remove(0);
        assert_eq!(engine.stage(start.node), Some(start.stage));
        if hold == Some(start.stage) {
            held.push(start);
            continue;
        }
        let (result, known) = outcome(start.node, start.stage);
        if let Some(stage) = engine.complete(start.node, result, known) {
            let next = Start { node: start.node, stage };
            seen.started.push(next);
            work.push(next);
        }
        seen.look(engine);
    }
}

fn all_well(_: usize, _: Stage) -> (Result<(), NixError>, bool) {
    (Ok(()), true)
}

#[test]
fn happy_path_switch() {
    let mut e = engine(&flags("switch", "2", "auto"), vec![plain(); 3]);
    let mut seen = Seen::new();
    assert!(run(&mut e, &mut seen, &all_well, None).is_empty());
    assert!(e.finished());
    for node in [ALPHA, BETA, GAMMA] {
        assert_eq!(e.stage(node), Some(Stage::Done));
    }
    assert!(seen.most_pushing < 3);
    assert!(seen.most_applying <= 2);
    assert!(seen.most_evaluating <= 1);
    assert_eq!(e.result(), Ok(()));
    assert_eq!(e.exit_code(), 0);
    assert!(e.failures().is_empty());
}

#[test]
fn stages_of_a_switch_in_order() {
    let policy = NodePolicy { replace_unknown_profiles: false, pre_keys: true, post_keys: true };
    let mut e = engine(&flags("switch", "1", "1"), vec![policy]);
    let mut seen = Seen::new();
    run(&mut e, &mut seen, &all_well, None);
    let stages: Vec<Stage> = seen.started.iter().map(|s| s.stage).collect();
    assert_eq!(
        stages,
        vec![
            Stage::Evaluating,
            Stage::Built,
            Stage::KeysPre,
            Stage::Pushing,
            Stage::Activating,
            Stage::KeysPost
        ]
    );
    assert_eq!(
        seen.job_types(),
        vec![
            JobType::Evaluate,
            JobType::Build,
            JobType::UploadKeys,
            JobType::Push,
            JobType::Activate,
            JobType::UploadKeys
        ]
    );
    assert_eq!(e.stage(0), Some(Stage::Done));
}

#[test]
fn single_failing_activation() {
    let mut e = engine(&flags("switch", "2", "auto"), vec![plain(); 3]);
    let mut seen = Seen::new();
    let outcome = |node: usize, stage: Stage| {
        if node == BETA && stage == Stage::Activating {
            (Err(NixError::Activation), true)
        } else {
            (Ok(()), true)
        }
    };
    run(&mut e, &mut seen, &outcome, None);
    assert!(e.finished());
    assert_eq!(e.stage(ALPHA), Some(Stage::Done));
    assert_eq!(e.stage(BETA), Some(Stage::Failed(NixError::Activation)));
    assert_eq!(e.stage(GAMMA), Some(Stage::Done));
    assert_eq!(NixError::Activation.kind(), ErrorKind::Activation);
    assert_eq!(e.exit_code(), 2);
    assert_eq!(e.failures(), vec![Failure { node: BETA, reason: NixError::Activation }]);
    assert_eq!(e.result(), Err(vec![Failure { node: BETA, reason: NixError::Activation }]));
}

#[test]
fn one_failure_at_any_stage_spares_the_others() {
    let policy = NodePolicy { replace_unknown_profiles: false, pre_keys: true, post_keys: true };
    for bad_stage in [
        Stage::Evaluating,
        Stage::Built,
        Stage::KeysPre,
        Stage::Pushing,
        Stage::Activating,
        Stage::KeysPost,
    ] {
        for bad_node in 0..4 {
            let mut e = engine(&flags("switch", "2", "3"), vec![policy; 4]);
            let mut seen = Seen::new();
            let outcome = |node: usize, stage: Stage| {
                if node == bad_node && stage == bad_stage {
                    (Err(NixError::Transport), true)
                } else {
                    (Ok(()), true)
                }
            };
            run(&mut e, &mut seen, &outcome, None);
            assert!(e.finished());
            for node in 0..4 {
                if node == bad_node {
                    assert_eq!(e.stage(node), Some(Stage::Failed(NixError::Transport)));
                } else {
                    assert_eq!(e.stage(node), Some(Stage::Done));
                }
            }
            assert!(!seen.started.iter().any(|s| s.node == bad_node
                && s.stage != bad_stage
                && s.stage.job_type().is_some()
                && rank(s.stage) > rank(bad_stage)));
            assert_eq!(e.exit_code(), 2);
        }
    }
}

fn rank(stage: Stage) -> usize {
    match stage {
        Stage::New => 0,
        Stage::Evaluating => 1,
        Stage::Built => 2,
        Stage::KeysPre => 3,
        Stage::Queued => 4,
        Stage::Pushing => 5,
        Stage::Activating => 6,
        Stage::KeysPost => 7,
        Stage::Done | Stage::Failed(_) => 8,
    }
}

#[test]
fn keys_only_goal() {
    let policy = NodePolicy { replace_unknown_profiles: false, pre_keys: true, post_keys: false };
    let mut e = engine(&flags("keys", "1", "1"), vec![policy; 2]);
    let mut seen = Seen::new();
    run(&mut e, &mut seen, &all_well, None);
    assert_eq!(
        seen.started,
        vec![
            Start { node: 0, stage: Stage::KeysPre },
            Start { node: 1, stage: Stage::KeysPre }
        ]
    );
    assert_eq!(seen.job_types(), vec![JobType::UploadKeys, JobType::UploadKeys]);
    assert_eq!(e.stage(0), Some(Stage::Done));
    assert_eq!(e.stage(1), Some(Stage::Done));
    assert_eq!(e.exit_code(), 0);
}

#[test]
fn unknown_profile_refused() {
    let mut e = engine(&flags("switch", "2", "auto"), vec![plain(); 4]);
    let mut seen = Seen::new();
    let outcome = |node: usize, _: Stage| (Ok(()), node != DELTA);
    run(&mut e, &mut seen, &outcome, None);
    assert_eq!(e.stage(DELTA), Some(Stage::Failed(NixError::UnknownProfile)));
    assert_eq!(NixError::UnknownProfile.kind(), ErrorKind::Policy);
    for node in [ALPHA, BETA, GAMMA] {
        assert_eq!(e.stage(node), Some(Stage::Done));
    }
    assert!(!seen.started.iter().any(|s| s.node == DELTA && s.stage == Stage::Pushing));
    assert_eq!(e.failures(), vec![Failure { node: DELTA, reason: NixError::UnknownProfile }]);
    assert_eq!(e.exit_code(), 2);
}

#[test]
fn unknown_profile_replaced_where_the_node_allows_it() {
    let lenient = NodePolicy { replace_unknown_profiles: true, pre_keys: false, post_keys: false };
    let mut e = engine(&flags("switch", "2", "auto"), vec![lenient]);
    run(&mut e, &mut Seen::new(), &|_, _| (Ok(()), false), None);
    assert_eq!(e.stage(0), Some(Stage::Done));
}

#[test]
fn unknown_profile_replaced_where_the_deployment_forces_it() {
    let mut f = flags("switch", "2", "auto");
    f.force_replace_unknown_profiles = true;
    let mut e = engine(&f, vec![plain()]);
    run(&mut e, &mut Seen::new(), &|_, _| (Ok(()), false), None);
    assert_eq!(e.stage(0), Some(Stage::Done));
}

#[test]
fn unknown_profile_does_not_matter_to_a_build() {
    let mut e = engine(&flags("build", "2", "auto"), vec![plain()]);
    run(&mut e, &mut Seen::new(), &|_, _| (Ok(()), false), None);
    assert_eq!(e.stage(0), Some(Stage::Done));
}

#[test]
fn cancellation_mid_deploy() {
    let mut e = engine(&flags("switch", "2", "0"), vec![plain(); 5]);
    let mut seen = Seen::new();
    let held = run(&mut e, &mut seen, &all_well, Some(Stage::Activating));
    assert_eq!(held.len(), 2);
    assert_eq!(count(&e, &[Stage::Activating]), 2);
    assert_eq!(count(&e, &[Stage::Queued]), 3);
    assert!(!e.is_cancelled());
    e.cancel();
    assert!(e.is_cancelled());
    assert_eq!(count(&e, &[Stage::Activating]), 2);
    assert_eq!(count(&e, &[Stage::Failed(NixError::Cancelled)]), 3);
    assert!(e.poll().is_empty());
    for start in &held {
        assert_eq!(e.complete(start.node, Ok(()), true), None);
        assert_eq!(e.stage(start.node), Some(Stage::Done));
    }
    assert!(e.finished());
    assert!(e.poll().is_empty());
    assert_eq!(count(&e, &[Stage::Done]), 2);
    assert_eq!(e.failures().len(), 3);
    assert!(e.failures().iter().all(|f| f.reason == NixError::Cancelled));
    assert_eq!(e.exit_code(), 2);
    assert_eq!(NixError::Cancelled.kind(), ErrorKind::Cancelled);
}

#[test]
fn after_cancellation_no_further_stage_is_started() {
    let policy = NodePolicy { replace_unknown_profiles: false, pre_keys: true, post_keys: true };
    let mut e = engine(&flags("switch", "2", "0"), vec![policy; 2]);
    let held = run(&mut e, &mut Seen::new(), &all_well, Some(Stage::Pushing));
    assert_eq!(held.len(), 2);
    e.cancel();
    assert_eq!(e.complete(held[0].node, Ok(()), true), None);
    assert_eq!(e.stage(held[0].node), Some(Stage::Failed(NixError::Cancelled)));
    assert_eq!(e.complete(held[1].node, Err(NixError::Transport), true), None);
    assert_eq!(e.stage(held[1].node), Some(Stage::Failed(NixError::Transport)));
    assert!(e.finished());
    assert_eq!(e.exit_code(), 1);
}

#[test]
fn cancelling_before_the_start_fails_every_node() {
    let mut e = engine(&flags("switch", "2", "auto"), vec![plain(); 3]);
    e.cancel();
    assert!(e.poll().is_empty());
    assert!(e.finished());
    assert_eq!(count(&e, &[Stage::Failed(NixError::Cancelled)]), 3);
    assert_eq!(e.exit_code(), 1);
}

#[test]
fn conflicting_flags_stop_the_engine_before_it_starts() {
    let settings = flags("keys", "2", "auto").settings(2).unwrap();
    let mut without_keys = settings;
    without_keys.options.set_upload_keys(false);
    assert!(matches!(
        Engine::new(&without_keys, vec![plain(); 2], 2),
        Err(NixError::KeysGoalWithoutKeys)
    ));
    assert!(Engine::new(&settings, vec![plain(); 2], 2).is_ok());
}

#[test]
fn goal_build_never_pushes_or_activates() {
    let policy = NodePolicy { replace_unknown_profiles: false, pre_keys: true, post_keys: true };
    let mut e = engine(&flags("build", "2", "auto"), vec![policy; 3]);
    let mut seen = Seen::new();
    run(&mut e, &mut seen, &all_well, None);
    assert!(seen.job_types().iter().all(|t| *t == JobType::Evaluate || *t == JobType::Build));
    assert_eq!(seen.started.len(), 6);
    assert_eq!(seen.most_applying, 0);
    assert_eq!(e.exit_code(), 0);
}

#[test]
fn goal_push_never_activates() {
    let policy = NodePolicy { replace_unknown_profiles: false, pre_keys: true, post_keys: true };
    let mut e = engine(&flags("push", "2", "auto"), vec![policy; 3]);
    let mut seen = Seen::new();
    run(&mut e, &mut seen, &all_well, None);
    let stages: Vec<Stage> =
        seen.started.iter().filter(|s| s.node == 0).map(|s| s.stage).collect();
    assert_eq!(stages, vec![Stage::Evaluating, Stage::Built, Stage::KeysPre, Stage::Pushing]);
    assert!(!seen.job_types().contains(&JobType::Activate));
    assert_eq!(e.exit_code(), 0);
}

#[test]
fn without_keys_no_keys_are_uploaded() {
    let policy = NodePolicy { replace_unknown_profiles: false, pre_keys: true, post_keys: true };
    let mut f = flags("switch", "2", "auto");
    f.no_keys = true;
    let mut e = engine(&f, vec![policy; 2]);
    let mut seen = Seen::new();
    run(&mut e, &mut seen, &all_well, None);
    assert!(!seen.job_types().contains(&JobType::UploadKeys));
    assert_eq!(e.exit_code(), 0);
}

#[test]
fn bounded_concurrency() {
    for (parallel, apply) in [("1", 1), ("2", 2), ("3", 3), ("0", 7), ("50", 7)] {
        let mut f = flags("switch", parallel, "0");
        f.no_keys = true;
        let settings = f.settings(7).unwrap();
        let mut custom = settings;
        custom.parallelism_limit.set_evaluation_limit(3);
        let mut e = Engine::new(&custom, vec![plain(); 7], 2).unwrap();
        let mut seen = Seen::new();
        let held = run(&mut e, &mut seen, &all_well, Some(Stage::Activating));
        assert_eq!(held.len(), apply);
        assert_eq!(seen.most_applying, apply);
        assert!(seen.most_evaluating <= 3);
        for start in held {
            e.complete(start.node, Ok(()), true);
        }
        run(&mut e, &mut seen, &all_well, None);
        assert_eq!(seen.most_applying, apply);
        assert!(e.finished());
        assert_eq!(e.exit_code(), 0);
    }
}

#[test]
fn evaluation_takes_a_batch_at_a_time() {
    let settings = flags("build", "10", "2").settings(5).unwrap();
    let mut custom = settings;
    custom.parallelism_limit.set_evaluation_limit(0);
    let mut e = Engine::new(&custom, vec![plain(); 5], 9).unwrap();
    assert_eq!(
        e.poll(),
        vec![
            Start { node: 0, stage: Stage::Evaluating },
            Start { node: 1, stage: Stage::Evaluating }
        ]
    );
    assert_eq!(
        e.poll(),
        vec![
            Start { node: 2, stage: Stage::Evaluating },
            Start { node: 3, stage: Stage::Evaluating }
        ]
    );
    assert_eq!(e.poll(), vec![Start { node: 4, stage: Stage::Evaluating }]);
    assert!(e.poll().is_empty());
}

#[test]
fn the_evaluation_limit_holds_nodes_back() {
    let settings = flags("build", "10", "0").settings(5).unwrap();
    let mut custom = settings;
    custom.parallelism_limit.set_evaluation_limit(2);
    let mut e = Engine::new(&custom, vec![plain(); 5], 9).unwrap();
    assert_eq!(e.poll().len(), 2);
    assert!(e.poll().is_empty());
    assert_eq!(e.complete(0, Ok(()), true), Some(Stage::Built));
    assert_eq!(e.poll(), vec![Start { node: 2, stage: Stage::Evaluating }]);
    assert_eq!(e.complete(1, Err(NixError::Evaluation), true), None);
    assert_eq!(e.poll(), vec![Start { node: 3, stage: Stage::Evaluating }]);
    assert_eq!(e.stage(1), Some(Stage::Failed(NixError::Evaluation)));
}

#[test]
fn the_queue_is_served_in_order() {
    let mut f = flags("push", "1", "0");
    f.no_keys = true;
    let settings = f.settings(3).unwrap();
    let mut custom = settings;
    custom.parallelism_limit.set_evaluation_limit(0);
    let mut e = Engine::new(&custom, vec![plain(); 3], 9).unwrap();
    assert_eq!(e.poll().len(), 3);
    for node in [2, 0, 1] {
        assert_eq!(e.complete(node, Ok(()), true), Some(Stage::Built));
    }
    for node in [1, 2, 0] {
        assert_eq!(e.complete(node, Ok(()), true), None);
        assert_eq!(e.stage(node), Some(Stage::Queued));
    }
    assert_eq!(e.poll(), vec![Start { node: 1, stage: Stage::Pushing }]);
    assert!(e.poll().is_empty());
    assert_eq!(e.complete(1, Ok(()), true), None);
    assert_eq!(e.stage(1), Some(Stage::Done));
    assert_eq!(e.poll(), vec![Start { node: 2, stage: Stage::Pushing }]);
    assert_eq!(e.complete(2, Err(NixError::Transport), true), None);
    assert_eq!(e.poll(), vec![Start { node: 0, stage: Stage::Pushing }]);
}

#[test]
fn reports_that_fit_no_work_change_nothing() {
    let mut e = engine(&flags("switch", "2", "auto"), vec![plain(); 2]);
    assert_eq!(e.complete(0, Err(NixError::Transport), true), None);
    assert_eq!(e.stage(0), Some(Stage::New));
    assert_eq!(e.complete(7, Ok(()), true), None);
    assert_eq!(e.stage(7), None);
    run(&mut e, &mut Seen::new(), &all_well, None);
    assert_eq!(e.complete(0, Err(NixError::Transport), true), None);
    assert_eq!(e.stage(0), Some(Stage::Done));
}

#[test]
fn empty_node_selection() {
    let mut e = engine(&flags("switch", "0", "auto"), Vec::new());
    assert_eq!(e.len(), 0);
    assert!(e.poll().is_empty());
    assert!(e.finished());
    assert_eq!(e.result(), Ok(()));
    assert_eq!(e.exit_code(), 0);
}

#[test]
fn exit_codes() {
    let mut e = engine(&flags("build", "2", "0"), vec![plain(); 2]);
    assert_eq!(e.exit_code(), 1);
    let fail_all = |_: usize, _: Stage| (Err(NixError::Evaluation), true);
    run(&mut e, &mut Seen::new(), &fail_all, None);
    assert_eq!(e.exit_code(), 1);
    assert_eq!(
        e.failures(),
        vec![
            Failure { node: 0, reason: NixError::Evaluation },
            Failure { node: 1, reason: NixError::Evaluation }
        ]
    );
    assert_eq!(colmena::engine::EXIT_CONFIGURATION, 1);
}

#[test]
fn the_rules_for_one_node() {
    let s = Stage::Built;
    assert_eq!(s.successor(Goal::Build, true, true), Stage::Done);
    assert_eq!(s.successor(Goal::Push, true, false), Stage::KeysPre);
    assert_eq!(s.successor(Goal::Push, false, true), Stage::Queued);
    assert_eq!(Stage::New.successor(Goal::UploadKeys, true, false), Stage::KeysPre);
    assert_eq!(Stage::KeysPre.successor(Goal::UploadKeys, true, false), Stage::Done);
    assert_eq!(Stage::Pushing.successor(Goal::Push, true, true), Stage::Done);
    assert_eq!(Stage::Pushing.successor(Goal::Test, true, true), Stage::Activating);
    assert_eq!(Stage::Activating.successor(Goal::Test, true, false), Stage::Done);
    assert_eq!(Stage::Activating.successor(Goal::Test, true, true), Stage::KeysPost);
    assert_eq!(
        s.report(Ok(()), false, Goal::Switch, false, false, false, false, false),
        Stage::Failed(NixError::UnknownProfile)
    );
    assert_eq!(
        s.report(Ok(()), false, Goal::Switch, false, false, true, false, false),
        Stage::Queued
    );
    assert_eq!(
        s.report(Ok(()), true, Goal::Switch, false, false, false, false, true),
        Stage::Failed(NixError::Cancelled)
    );
    assert_eq!(
        s.report(Err(NixError::OutOfDisk), true, Goal::Switch, false, false, false, false, false),
        Stage::Failed(NixError::OutOfDisk)
    );
    assert_eq!(
        Stage::Queued.report(Err(NixError::OutOfDisk), true, Goal::Switch, false, false, false, false, false),
        Stage::Queued
    );
    assert!(Stage::Done.is_terminal() && Stage::Failed(NixError::Cancelled).is_terminal());
    assert!(Stage::New.is_idle() && Stage::Queued.is_idle() && !Stage::Built.is_idle());
    assert!(Stage::Built.is_active() && !Stage::Done.is_active() && !Stage::New.is_active());
    assert_eq!(Stage::Queued.job_type(), None);
}

/// A small generator of numbers that look random, the same on every run.
struct Dice(u64);

impl Dice {
    fn roll(&mut self, sides: usize) -> usize {
        self.0 = self.0.wrapping_mul(6364136223846793005).wrapping_add(1442695040888963407);
        ((self.0 >> 33) as usize) % sides
    }
}

fn allowed(goal: Goal, stage: Stage) -> bool {
    match goal {
        Goal::Build => matches!(
            stage,
            Stage::New | Stage::Evaluating | Stage::Built | Stage::Done | Stage::Failed(_)
        ),
        Goal::Push => !matches!(stage, Stage::Activating | Stage::KeysPost),
        Goal::UploadKeys => {
            matches!(stage, Stage::New | Stage::KeysPre | Stage::Done | Stage::Failed(_))
        }
        _ => true,
    }
}

#[test]
fn whatever_happens_the_limits_hold() {
    let goals = ["build", "push", "switch", "boot", "test", "dry-activate", "keys"];
    for seed in 0..300u64 {
        let mut dice = Dice(seed);
        let n = dice.roll(7);
        let goal_word = goals[dice.roll(goals.len())];
        let goal = Goal::from_str(goal_word).unwrap();
        let mut f = flags(goal_word, &dice.roll(4).to_string(), ["auto", "0", "1", "2"][dice.roll(4)]);
        f.no_keys = goal != Goal::UploadKeys && dice.roll(3) == 0;
        f.force_replace_unknown_profiles = dice.roll(4) == 0;
        let mut settings = f.settings(n).unwrap();
        settings.parallelism_limit.set_evaluation_limit(dice.roll(4));
        let policies: Vec<NodePolicy> = (0..n)
            .map(|_| NodePolicy {
                replace_unknown_profiles: dice.roll(2) == 0,
                pre_keys: dice.roll(2) == 0,
                post_keys: dice.roll(2) == 0,
            })
            .collect();
        let eval_permits = match settings.parallelism_limit.evaluation {
            0 => n,
            limit => limit,
        };
        let apply_permits = match settings.parallelism_limit.apply {
            0 => n,
            limit => limit,
        };
        let mut e = Engine::new(&settings, policies, dice.roll(3)).unwrap();
        let cancel_at = dice.roll(40);
        let mut work: Vec<Start> = Vec::new();
        let mut before: Vec<Stage> = vec![Stage::New; n];
        let mut steps = 0;
        loop {
            let admitted = e.poll();
            for start in &admitted {
                assert!(before[start.node].is_idle());
                assert!(start.stage.is_active());
            }
            work.extend(admitted);
            if steps == cancel_at {
                e.cancel();
                assert!(e.poll().is_empty());
            }
            assert!(count(&e, &[Stage::Evaluating]) <= eval_permits);
            assert!(count(&e, &[Stage::Pushing, Stage::Activating]) <= apply_permits);
            for node in 0..n {
                let stage = e.stage(node).unwrap();
                assert!(allowed(goal, stage), "{:?} under {:?}", stage, goal);
                assert!(rank(stage) >= rank(before[node]));
                if before[node].is_terminal() {
                    assert_eq!(stage, before[node]);
                }
                before[node] = stage;
            }
            assert_eq!(work.len(), (0..n).filter(|&i| e.stage(i).unwrap().is_active()).count());
            if work.is_empty() {
                break;
            }
            let start = work.remove(dice.roll(work.len()));
            assert_eq!(e.stage(start.node), Some(start.stage));
            let result = if dice.roll(6) == 0 { Err(NixError::Transport) } else { Ok(()) };
            if let Some(stage) = e.complete(start.node, result, dice.roll(5) != 0) {
                assert!(result.is_ok());
                work.push(Start { node: start.node, stage });
            }
            for node in 0..n {
                if node != start.node {
                    assert_eq!(e.stage(node), Some(before[node]));
                }
            }
            before[start.node] = e.stage(start.node).unwrap();
            steps += 1;
        }
        assert!(e.finished());
        let failures = e.failures();
        let failed: Vec<usize> = (0..n).filter(|&i| e.stage(i) != Some(Stage::Done)).collect();
        assert_eq!(failures.iter().map(|f| f.node).collect::<Vec<_>>(), failed);
        for failure in &failures {
            assert_eq!(e.stage(failure.node), Some(Stage::Failed(failure.reason)));
        }
        let expected = if failed.is_empty() {
            0
        } else if failed.len() < n {
            2
        } else {
            1
        };
        assert_eq!(e.exit_code(), expected);
        assert_eq!(e.result().is_ok(), failed.is_empty());
    }
}
