use colmena::error::NixError;
use colmena::goal::Goal;
use colmena::options::{
    permits, validate_eval_node_limit, validate_parallel, CopyOptions, DeployFlags,
    EvaluationNodeLimit, Options, ParallelismLimit,
};

fn flags(goal: &str) -> DeployFlags {
    DeployFlags {
        goal: goal.to_string(),
        parallel: "10".to_string(),
        eval_node_limit: "auto".to_string(),
        keep_result: false,
        verbose: false,
        no_keys: false,
        no_substitutes: false,
        no_gzip: false,
        force_replace_unknown_profiles: false,
    }
}

#[test]
fn default_options() {
    let options = Options::default();
    assert!(options.substituters_push);
    assert!(options.gzip);
    assert!(options.upload_keys);
    assert!(!options.create_gc_roots);
    assert!(!options.force_replace_unknown_profiles);
}

#[test]
fn setters_change_one_toggle() {
    let mut options = Options::default();
    options.set_gzip(false);
    assert_eq!(options, Options { gzip: false, ..Options::default() });
    options.set_substituters_push(false);
    options.set_upload_keys(false);
    options.set_create_gc_roots(true);
    options.set_force_replace_unknown_profiles(true);
    assert_eq!(
        options,
        Options {
            substituters_push: false,
            gzip: false,
            upload_keys: false,
            create_gc_roots: true,
            force_replace_unknown_profiles: true,
        }
    );
}

#[test]
fn copy_options_follow_the_options() {
    let mut options = Options::default();
    assert_eq!(
        options.to_copy_options(),
        CopyOptions { include_outputs: true, use_substitutes: true, gzip: true }
    );
    options.set_gzip(false);
    assert_eq!(
        options.to_copy_options(),
        CopyOptions { include_outputs: true, use_substitutes: true, gzip: false }
    );
    options.set_substituters_push(false);
    assert_eq!(
        options.to_copy_options(),
        CopyOptions { include_outputs: true, use_substitutes: false, gzip: false }
    );
}

#[test]
fn default_parallelism() {
    assert_eq!(ParallelismLimit::default(), ParallelismLimit { evaluation: 1, apply: 10 });
    let mut limit = ParallelismLimit::default();
    limit.set_apply_limit(3);
    limit.set_evaluation_limit(2);
    assert_eq!(limit, ParallelismLimit { evaluation: 2, apply: 3 });
}

#[test]
fn zero_permits_mean_one_per_node() {
    assert_eq!(permits(0, 7), 7);
    assert_eq!(permits(0, 0), 0);
    assert_eq!(permits(3, 7), 3);
    assert_eq!(permits(9, 7), 9);
}

#[test]
fn evaluation_limit_words() {
    assert_eq!(EvaluationNodeLimit::from_str("auto"), Some(EvaluationNodeLimit::Heuristic));
    assert_eq!(EvaluationNodeLimit::from_str("0"), Some(EvaluationNodeLimit::Unlimited));
    assert_eq!(EvaluationNodeLimit::from_str("4"), Some(EvaluationNodeLimit::Manual(4)));
    assert_eq!(EvaluationNodeLimit::from_str("+4"), Some(EvaluationNodeLimit::Manual(4)));
    assert_eq!(EvaluationNodeLimit::from_str("Auto"), None);
    assert_eq!(EvaluationNodeLimit::from_str("-1"), None);
    assert_eq!(EvaluationNodeLimit::from_str(""), None);
}

#[test]
fn chunk_sizes() {
    assert_eq!(EvaluationNodeLimit::Unlimited.chunk_size(12, 3), 12);
    assert_eq!(EvaluationNodeLimit::Unlimited.chunk_size(0, 3), 0);
    assert_eq!(EvaluationNodeLimit::Manual(5).chunk_size(12, 3), 5);
    assert_eq!(EvaluationNodeLimit::Manual(50).chunk_size(12, 3), 50);
    assert_eq!(EvaluationNodeLimit::Heuristic.chunk_size(12, 3), 3);
    assert_eq!(EvaluationNodeLimit::Heuristic.chunk_size(12, 0), 1);
}

#[test]
fn no_evaluation_limit_is_all_at_once() {
    let limit = EvaluationNodeLimit::from_str("0").unwrap();
    for n in [0usize, 1, 5, 1000] {
        assert_eq!(limit.chunk_size(n, 2), n);
    }
}

#[test]
fn limits_on_the_command_line_are_checked() {
    assert_eq!(validate_eval_node_limit("auto"), Ok(()));
    assert_eq!(validate_eval_node_limit("0"), Ok(()));
    assert_eq!(validate_eval_node_limit("12"), Ok(()));
    assert_eq!(
        validate_eval_node_limit("many"),
        Err("The value must be a valid number".to_string())
    );
    assert_eq!(validate_eval_node_limit(""), Err("The value must be a valid number".to_string()));
    assert_eq!(validate_parallel("10"), Ok(()));
    assert_eq!(validate_parallel("0"), Ok(()));
    assert_eq!(validate_parallel("auto"), Err("The value must be a valid number".to_string()));
    assert_eq!(validate_parallel("-3"), Err("The value must be a valid number".to_string()));
}

#[test]
fn settings_from_default_flags() {
    let settings = flags("switch").settings(3).unwrap();
    assert_eq!(settings.goal, Goal::Switch);
    assert_eq!(settings.options, Options::default());
    assert_eq!(settings.parallelism_limit, ParallelismLimit { evaluation: 1, apply: 10 });
    assert_eq!(settings.evaluation_node_limit, EvaluationNodeLimit::Heuristic);
    assert!(!settings.verbose);
}

#[test]
fn options_round_trip() {
    for bits in 0u8..32 {
        let mut f = flags("switch");
        f.no_substitutes = bits & 1 != 0;
        f.no_gzip = bits & 2 != 0;
        f.no_keys = bits & 4 != 0;
        f.keep_result = bits & 8 != 0;
        f.force_replace_unknown_profiles = bits & 16 != 0;
        let settings = f.settings(4).unwrap();
        assert_eq!(settings.options.substituters_push, !f.no_substitutes);
        assert_eq!(settings.options.gzip, !f.no_gzip);
        assert_eq!(settings.options.upload_keys, !f.no_keys);
        assert_eq!(settings.options.create_gc_roots, f.keep_result);
        assert_eq!(
            settings.options.force_replace_unknown_profiles,
            f.force_replace_unknown_profiles
        );
        let copy = settings.options.to_copy_options();
        assert_eq!(copy.use_substitutes, !f.no_substitutes);
        assert_eq!(copy.gzip, !f.no_gzip);
        assert!(copy.include_outputs);
    }
}

#[test]
fn parallel_zero_is_one_permit_per_node() {
    let mut zero = flags("switch");
    zero.parallel = "0".to_string();
    let mut all = flags("switch");
    all.parallel = "6".to_string();
    assert_eq!(zero.settings(6), all.settings(6));
    assert_eq!(zero.settings(6).unwrap().parallelism_limit.apply, 6);
    assert_eq!(zero.settings(0).unwrap().parallelism_limit.apply, 0);
}

#[test]
fn eval_limit_zero_lifts_the_limit() {
    let mut f = flags("build");
    f.eval_node_limit = "0".to_string();
    assert_eq!(f.settings(9).unwrap().evaluation_node_limit, EvaluationNodeLimit::Unlimited);
    f.eval_node_limit = "3".to_string();
    assert_eq!(f.settings(9).unwrap().evaluation_node_limit, EvaluationNodeLimit::Manual(3));
}

#[test]
fn verbose_is_kept() {
    let mut f = flags("push");
    f.verbose = true;
    assert!(f.settings(1).unwrap().verbose);
}

#[test]
fn conflicting_flags() {
    let mut f = flags("keys");
    f.no_keys = true;
    assert_eq!(f.settings(2), Err(NixError::KeysGoalWithoutKeys));
    assert_eq!(NixError::KeysGoalWithoutKeys.kind(), colmena::error::ErrorKind::Configuration);
    f.no_keys = false;
    assert_eq!(f.settings(2).unwrap().goal, Goal::UploadKeys);
}

#[test]
fn bad_flags_are_refused_in_order() {
    let mut f = flags("launch");
    f.no_keys = true;
    f.parallel = "x".to_string();
    f.eval_node_limit = "y".to_string();
    assert_eq!(f.settings(2), Err(NixError::UnknownGoal));
    f.goal = "keys".to_string();
    assert_eq!(f.settings(2), Err(NixError::KeysGoalWithoutKeys));
    f.no_keys = false;
    assert_eq!(f.settings(2), Err(NixError::InvalidNumber));
    f.parallel = "2".to_string();
    assert_eq!(f.settings(2), Err(NixError::InvalidNumber));
    f.eval_node_limit = "auto".to_string();
    assert!(f.settings(2).is_ok());
}
