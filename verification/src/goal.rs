//! The goal of a deployment: the last stage that the user asked for.

use crate::text::str_eq;
use vstd::prelude::*;

verus! {

/// How far a deployment goes on every node.
#[derive(Clone, Copy, Debug, PartialEq, Eq, Structural)]
pub enum Goal {
    /// Realize the system closure and stop.
    Build,
    /// Also copy the closure to the target.
    Push,
    /// Activate now and make the configuration the boot default.
    Switch,
    /// Make the configuration the boot default without activating it now.
    Boot,
    /// Activate now without touching the boot default.
    Test,
    /// Show what activation would do.
    DryActivate,
    /// Only upload the keys that are due before activation.
    UploadKeys,
}

impl Goal {
    /// The word that names the goal on the command line.
    pub open spec fn name(self) -> Seq<char> {
        match self {
            Goal::Build => "build"@,
            Goal::Push => "push"@,
            Goal::Switch => "switch"@,
            Goal::Boot => "boot"@,
            Goal::Test => "test"@,
            Goal::DryActivate => "dry-activate"@,
            Goal::UploadKeys => "keys"@,
        }
    }

    /// The goal that a word names, if any.
    pub open spec fn parse(s: Seq<char>) -> Option<Goal> {
        if s == "build"@ {
            Some(Goal::Build)
        } else if s == "push"@ {
            Some(Goal::Push)
        } else if s == "switch"@ {
            Some(Goal::Switch)
        } else if s == "boot"@ {
            Some(Goal::Boot)
        } else if s == "test"@ {
            Some(Goal::Test)
        } else if s == "dry-activate"@ {
            Some(Goal::DryActivate)
        } else if s == "keys"@ {
            Some(Goal::UploadKeys)
        } else {
            None
        }
    }

    /// Whether the goal needs a machine to deploy to.
    pub open spec fn spec_requires_target_host(&self) -> bool {
        *self != Goal::Build
    }

    /// Whether the goal repoints the system profile before activation.
    pub open spec fn spec_should_switch_profile(&self) -> bool {
        *self == Goal::Switch || *self == Goal::Boot
    }

    /// Whether the goal is one of the activation modes.
    pub open spec fn spec_is_real_goal(&self) -> bool {
        *self == Goal::Switch || *self == Goal::Boot || *self == Goal::Test || *self
            == Goal::DryActivate
    }

    /// Reads a goal from its command-line word.
    pub fn from_str(s: &str) -> (r: Option<Goal>)
        ensures
            r == Goal::parse(s@),
    {
        if str_eq(s, "build") {
            Some(Goal::Build)
        } else if str_eq(s, "push") {
            Some(Goal::Push)
        } else if str_eq(s, "switch") {
            Some(Goal::Switch)
        } else if str_eq(s, "boot") {
            Some(Goal::Boot)
        } else if str_eq(s, "test") {
            Some(Goal::Test)
        } else if str_eq(s, "dry-activate") {
            Some(Goal::DryActivate)
        } else if str_eq(s, "keys") {
            Some(Goal::UploadKeys)
        } else {
            None
        }
    }

    /// The word that names the goal; activation passes it to the profile's command.
    pub fn as_str(&self) -> (r: &'static str)
        ensures
            r@ == self.name(),
    {
        match self {
            Goal::Build => "build",
            Goal::Push => "push",
            Goal::Switch => "switch",
            Goal::Boot => "boot",
            Goal::Test => "test",
            Goal::DryActivate => "dry-activate",
            Goal::UploadKeys => "keys",
        }
    }

    /// Whether the goal needs a machine to deploy to: every goal but `Build`.
    #[verifier::when_used_as_spec(spec_requires_target_host)]
    pub fn requires_target_host(&self) -> (r: bool)
        ensures
            r == self.spec_requires_target_host(),
    {
        !matches!(self, Goal::Build)
    }

    /// Whether the system profile is pointed at the new configuration before
    /// activation: for `Switch` and `Boot`.
    #[verifier::when_used_as_spec(spec_should_switch_profile)]
    pub fn should_switch_profile(&self) -> (r: bool)
        ensures
            r == self.spec_should_switch_profile(),
    {
        matches!(self, Goal::Switch | Goal::Boot)
    }

    /// Whether the goal is an activation mode that a profile's activation
    /// command understands: `Switch`, `Boot`, `Test` or `DryActivate`.
    #[verifier::when_used_as_spec(spec_is_real_goal)]
    pub fn is_real_goal(&self) -> (r: bool)
        ensures
            r == self.spec_is_real_goal(),
    {
        matches!(self, Goal::Switch | Goal::Boot | Goal::Test | Goal::DryActivate)
    }
}

/// Reading a goal's own name gives the goal back, and only a goal's own name
/// reads as that goal.
pub proof fn lemma_goal_name_round_trip(goal: Goal, s: Seq<char>)
    ensures
        Goal::parse(goal.name()) == Some(goal),
        Goal::parse(s) == Some(goal) <==> s == goal.name(),
{
    reveal_strlit("build");
    reveal_strlit("push");
    reveal_strlit("switch");
    reveal_strlit("boot");
    reveal_strlit("test");
    reveal_strlit("dry-activate");
    reveal_strlit("keys");
    assert("build"@.len() == 5);
    assert("push"@.len() == 4);
    assert("switch"@.len() == 6);
    assert("boot"@.len() == 4);
    assert("test"@.len() == 4);
    assert("dry-activate"@.len() == 12);
    assert("keys"@.len() == 4);
    assert("push"@[0] == 'p');
    assert("boot"@[0] == 'b');
    assert("test"@[0] == 't');
    assert("keys"@[0] == 'k');
}

} // verus!
