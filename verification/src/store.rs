//! Store paths and system profiles.

use crate::error::NixError;
use crate::goal::Goal;
use crate::text::{has_prefix, join_path, join_path_spec, split_lines, lines_spec, starts_with, strings_view};
use vstd::prelude::*;
use vstd::string::*;

verus! {

/// The profile that a machine boots from.
pub const SYSTEM_PROFILE: &'static str = "/nix/var/nix/profiles/system";

/// Where the activation command lies below a profile.
pub const ACTIVATION_PROGRAM: &'static str = "bin/switch-to-configuration";

/// The directory that every store path lies in, with the slash that ends it.
pub open spec fn store_prefix() -> Seq<char> {
    "/nix/store/"@
}

/// Whether a path has the form of a store path: it lies in the store.
pub open spec fn is_store_path(path: Seq<char>) -> bool {
    has_prefix(path, store_prefix())
}

/// A path in the store.
#[derive(Debug)]
pub struct StorePath {
    path: String,
}

impl View for StorePath {
    type V = Seq<char>;

    closed spec fn view(&self) -> Seq<char> {
        self.path@
    }
}

impl StorePath {
    #[verifier::type_invariant]
    spec fn well_formed(self) -> bool {
        is_store_path(self.path@)
    }

    /// Takes a path as a store path if it has the form of one.
    pub fn try_from(path: String) -> (r: Result<StorePath, NixError>)
        ensures
            is_store_path(path@) ==> r is Ok && r->Ok_0@ == path@,
            !is_store_path(path@) ==> r == Err::<StorePath, NixError>(NixError::InvalidStorePath),
    {
        if starts_with(path.as_str(), "/nix/store/") {
            Ok(StorePath { path })
        } else {
            Err(NixError::InvalidStorePath)
        }
    }

    /// The path as text.
    pub fn as_str(&self) -> (r: &str)
        ensures
            r@ == self@,
            is_store_path(r@),
    {
        proof {
            use_type_invariant(self);
        }
        self.path.as_str()
    }
}

/// The texts of a sequence of store paths.
pub open spec fn paths_view(v: Seq<StorePath>) -> Seq<Seq<char>> {
    Seq::new(v.len(), |i: int| v[i]@)
}

/// Whether every line is a store path.
pub open spec fn all_store_paths(lines: Seq<Seq<char>>) -> bool {
    forall|i: int| 0 <= i < lines.len() ==> is_store_path(#[trigger] lines[i])
}

/// Reads the store paths that a realization printed, one per line. A line
/// that is no store path makes the whole output malformed.
pub fn parse_store_paths(stdout: &str) -> (r: Result<Vec<StorePath>, NixError>)
    ensures
        all_store_paths(lines_spec(stdout@)) ==> r is Ok && paths_view(r->Ok_0@) == lines_spec(
            stdout@,
        ),
        !all_store_paths(lines_spec(stdout@)) ==> r == Err::<Vec<StorePath>, NixError>(
            NixError::MalformedOutput,
        ),
{
    let mut lines = split_lines(stdout);
    let ghost all = strings_view(lines@);
    let n = lines.len();
    let mut paths: Vec<StorePath> = Vec::new();
    let mut i: usize = 0;
    while i < n
        invariant
            all == lines_spec(stdout@),
            n == all.len(),
            lines.len() == n,
            i <= n,
            forall|j: int| i <= j < n ==> (#[trigger] lines@[j])@ == all[j],
            paths.len() == i,
            forall|j: int| 0 <= j < i ==> (#[trigger] paths@[j])@ == all[j],
            forall|j: int| 0 <= j < i ==> is_store_path(#[trigger] all[j]),
        decreases n - i,
    {
        let mut line = String::new();
        std::mem::swap(&mut line, &mut lines[i]);
        match StorePath::try_from(line) {
            Ok(path) => {
                paths.push(path);
            },
            Err(_) => {
                assert(!is_store_path(all[i as int]));
                return Err(NixError::MalformedOutput);
            },
        }
        i = i + 1;
    }
    assert(paths_view(paths@) =~= all);
    Ok(paths)
}

/// A store path that holds a system configuration.
#[derive(Debug)]
pub struct Profile {
    path: StorePath,
}

impl View for Profile {
    type V = Seq<char>;

    closed spec fn view(&self) -> Seq<char> {
        self.path@
    }
}

impl Profile {
    /// The command that activates a profile at `path` in the mode that
    /// `goal` names, for the goals that are activation modes.
    pub open spec fn activation_command_spec(path: Seq<char>, goal: Goal) -> Option<
        Seq<Seq<char>>,
    > {
        if goal.is_real_goal() {
            Some(seq![join_path_spec(path, ACTIVATION_PROGRAM@), goal.name()])
        } else {
            None
        }
    }

    /// Takes a store path as a profile.
    pub fn from_store_path(path: StorePath) -> (r: Profile)
        ensures
            r@ == path@,
    {
        Profile { path }
    }

    /// The profile's path as text.
    pub fn as_str(&self) -> (r: &str)
        ensures
            r@ == self@,
            is_store_path(r@),
    {
        self.path.as_str()
    }

    /// The command that activates the profile: its activation program, with
    /// the goal's word as the one argument. Only an activation mode has one.
    pub fn activation_command(&self, goal: Goal) -> (r: Option<Vec<String>>)
        ensures
            r is Some == goal.is_real_goal(),
            r is Some ==> Some(strings_view(r->0@)) == Profile::activation_command_spec(
                self@,
                goal,
            ),
    {
        if goal.is_real_goal() {
            let program = join_path(self.as_str(), ACTIVATION_PROGRAM);
            let mode = String::from_str(goal.as_str());
            let mut command: Vec<String> = Vec::new();
            command.push(program);
            command.push(mode);
            assert(strings_view(command@) =~= seq![
                join_path_spec(self@, ACTIVATION_PROGRAM@),
                goal.name(),
            ]);
            Some(command)
        } else {
            None
        }
    }
}

/// The directory below a fleet description's directory that holds the
/// garbage-collector roots.
pub const GC_ROOTS_DIR: &'static str = ".gcroots";

/// Where the garbage-collector root of a node's profile is kept: in
/// `.gcroots` beside the fleet description, under the node's name.
pub fn gc_root_path(config_dir: &str, node: &str) -> (r: String)
    ensures
        r@ == join_path_spec(join_path_spec(config_dir@, GC_ROOTS_DIR@), node@),
{
    let roots = join_path(config_dir, GC_ROOTS_DIR);
    join_path(roots.as_str(), node)
}

} // verus!
