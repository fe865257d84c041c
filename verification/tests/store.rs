use colmena::error::{ErrorKind, NixError};
use colmena::goal::Goal;
use colmena::store::{
    gc_root_path, parse_store_paths, Profile, StorePath, ACTIVATION_PROGRAM, GC_ROOTS_DIR,
    SYSTEM_PROFILE,
};

fn store_path(s: &str) -> StorePath {
    StorePath::try_from(s.to_string()).unwrap()
}

#[test]
fn store_paths_lie_in_the_store() {
    let path = store_path("/nix/store/abc-system");
    assert_eq!(path.as_str(), "/nix/store/abc-system");
    assert_eq!(store_path("/nix/store/").as_str(), "/nix/store/");
}

#[test]
fn other_paths_are_no_store_paths() {
    for s in ["", "/", "/nix/store", "nix/store/abc", "/nix/stores/abc", " /nix/store/abc", "/tmp/x"] {
        assert!(
            matches!(StorePath::try_from(s.to_string()), Err(NixError::InvalidStorePath)),
            "{:?}",
            s
        );
    }
    assert_eq!(NixError::InvalidStorePath.kind(), ErrorKind::Internal);
}

#[test]
fn realized_paths_are_read_line_by_line() {
    let paths = parse_store_paths("/nix/store/a-one\n/nix/store/b-two\n").unwrap();
    let texts: Vec<&str> = paths.iter().map(|p| p.as_str()).collect();
    assert_eq!(texts, vec!["/nix/store/a-one", "/nix/store/b-two"]);
    let paths = parse_store_paths("/nix/store/a-one\r\n/nix/store/b-two").unwrap();
    let texts: Vec<&str> = paths.iter().map(|p| p.as_str()).collect();
    assert_eq!(texts, vec!["/nix/store/a-one", "/nix/store/b-two"]);
    assert!(parse_store_paths("").unwrap().is_empty());
}

#[test]
fn a_line_that_is_no_store_path_spoils_the_output() {
    for out in [
        "/nix/store/a-one\nwarning: something\n",
        "\n",
        "/nix/store/a\n\n/nix/store/b\n",
        "error",
        " /nix/store/a\n",
    ] {
        assert!(matches!(parse_store_paths(out), Err(NixError::MalformedOutput)), "{:?}", out);
    }
    assert_eq!(NixError::MalformedOutput.kind(), ErrorKind::Internal);
}

#[test]
fn well_known_places() {
    assert_eq!(SYSTEM_PROFILE, "/nix/var/nix/profiles/system");
    assert_eq!(ACTIVATION_PROGRAM, "bin/switch-to-configuration");
    assert_eq!(GC_ROOTS_DIR, ".gcroots");
}

#[test]
fn activation_commands() {
    let profile = Profile::from_store_path(store_path("/nix/store/abc-system"));
    assert_eq!(profile.as_str(), "/nix/store/abc-system");
    for (goal, word) in [
        (Goal::Switch, "switch"),
        (Goal::Boot, "boot"),
        (Goal::Test, "test"),
        (Goal::DryActivate, "dry-activate"),
    ] {
        assert_eq!(
            profile.activation_command(goal),
            Some(vec![
                "/nix/store/abc-system/bin/switch-to-configuration".to_string(),
                word.to_string()
            ])
        );
    }
}

#[test]
fn no_activation_command_without_activation() {
    let profile = Profile::from_store_path(store_path("/nix/store/abc-system"));
    assert_eq!(profile.activation_command(Goal::Build), None);
    assert_eq!(profile.activation_command(Goal::Push), None);
    assert_eq!(profile.activation_command(Goal::UploadKeys), None);
}

#[test]
fn gc_roots_lie_beside_the_fleet_description() {
    assert_eq!(gc_root_path("/home/me/fleet", "alpha"), "/home/me/fleet/.gcroots/alpha");
    assert_eq!(gc_root_path("/home/me/fleet/", "beta"), "/home/me/fleet/.gcroots/beta");
    assert_eq!(gc_root_path("", "gamma"), ".gcroots/gamma");
}
