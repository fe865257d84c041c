//! What can go wrong, by kind.

use vstd::prelude::*;

verus! {

/// The broad kind of an error, as shown in a failure's one-line summary.
#[derive(Clone, Copy, Debug, PartialEq, Eq, Structural)]
pub enum ErrorKind {
    /// Invalid options, an invalid key, or a goal that the options contradict.
    Configuration,
    /// A node's configuration could not be evaluated.
    Evaluation,
    /// A closure could not be built or substituted.
    Realization,
    /// A closure could not be copied, or the host could not be reached.
    Transport,
    /// A safety policy refused the deployment.
    Policy,
    /// The activation command exited with a failure.
    Activation,
    /// The deployment was cancelled.
    Cancelled,
    /// The host does not support the requested goal.
    Unsupported,
    /// An invariant was violated, or a subprocess printed what it should not.
    Internal,
}

/// An error of the deployment machinery.
#[derive(Clone, Copy, Debug, PartialEq, Eq, Structural)]
pub enum NixError {
    /// The goal is to upload keys, but key upload is switched off.
    KeysGoalWithoutKeys,
    /// A limit on the command line is not a number.
    InvalidNumber,
    /// The goal on the command line is not a known word.
    UnknownGoal,
    /// A key's description breaks a rule.
    InvalidKey,
    /// A node's name holds a character that cannot be printed.
    InvalidNodeName,
    /// Evaluation of a node failed.
    Evaluation,
    /// A derivation could not be realized.
    Realization,
    /// A substituter failed.
    Substituter,
    /// The disk ran full during a build.
    OutOfDisk,
    /// Copying a closure failed.
    Transport,
    /// The host rejected the credentials.
    Authentication,
    /// The path to copy does not exist.
    MissingPath,
    /// The profile that is live on the target is unknown, and replacing it was not allowed.
    UnknownProfile,
    /// The activation command exited with a failure.
    Activation,
    /// The deployment was cancelled before the node got this far.
    Cancelled,
    /// The host does not support the requested goal.
    Unsupported,
    /// A path does not have the form of a store path.
    InvalidStorePath,
    /// A subprocess printed something other than what was expected of it.
    MalformedOutput,
    /// An event came for a job that cannot take it.
    JobProtocol,
}

impl NixError {
    /// The kind that the error belongs to.
    pub open spec fn spec_kind(&self) -> ErrorKind {
        match *self {
            NixError::KeysGoalWithoutKeys => ErrorKind::Configuration,
            NixError::InvalidNumber => ErrorKind::Configuration,
            NixError::UnknownGoal => ErrorKind::Configuration,
            NixError::InvalidKey => ErrorKind::Configuration,
            NixError::InvalidNodeName => ErrorKind::Configuration,
            NixError::Evaluation => ErrorKind::Evaluation,
            NixError::Realization => ErrorKind::Realization,
            NixError::Substituter => ErrorKind::Realization,
            NixError::OutOfDisk => ErrorKind::Realization,
            NixError::Transport => ErrorKind::Transport,
            NixError::Authentication => ErrorKind::Transport,
            NixError::MissingPath => ErrorKind::Transport,
            NixError::UnknownProfile => ErrorKind::Policy,
            NixError::Activation => ErrorKind::Activation,
            NixError::Cancelled => ErrorKind::Cancelled,
            NixError::Unsupported => ErrorKind::Unsupported,
            NixError::InvalidStorePath => ErrorKind::Internal,
            NixError::MalformedOutput => ErrorKind::Internal,
            NixError::JobProtocol => ErrorKind::Internal,
        }
    }

    /// The kind that the error belongs to.
    #[verifier::when_used_as_spec(spec_kind)]
    pub fn kind(&self) -> (r: ErrorKind)
        ensures
            r == self.spec_kind(),
    {
        match self {
            NixError::KeysGoalWithoutKeys => ErrorKind::Configuration,
            NixError::InvalidNumber => ErrorKind::Configuration,
            NixError::UnknownGoal => ErrorKind::Configuration,
            NixError::InvalidKey => ErrorKind::Configuration,
            NixError::InvalidNodeName => ErrorKind::Configuration,
            NixError::Evaluation => ErrorKind::Evaluation,
            NixError::Realization => ErrorKind::Realization,
            NixError::Substituter => ErrorKind::Realization,
            NixError::OutOfDisk => ErrorKind::Realization,
            NixError::Transport => ErrorKind::Transport,
            NixError::Authentication => ErrorKind::Transport,
            NixError::MissingPath => ErrorKind::Transport,
            NixError::UnknownProfile => ErrorKind::Policy,
            NixError::Activation => ErrorKind::Activation,
            NixError::Cancelled => ErrorKind::Cancelled,
            NixError::Unsupported => ErrorKind::Unsupported,
            NixError::InvalidStorePath => ErrorKind::Internal,
            NixError::MalformedOutput => ErrorKind::Internal,
            NixError::JobProtocol => ErrorKind::Internal,
        }
    }
}

impl ErrorKind {
    /// The word that a failure's summary shows for the kind.
    pub fn as_str(&self) -> (r: &'static str)
        ensures
            r@ == self.name(),
    {
        match self {
            ErrorKind::Configuration => "configuration",
            ErrorKind::Evaluation => "evaluation",
            ErrorKind::Realization => "realization",
            ErrorKind::Transport => "transport",
            ErrorKind::Policy => "policy",
            ErrorKind::Activation => "activation",
            ErrorKind::Cancelled => "cancelled",
            ErrorKind::Unsupported => "unsupported",
            ErrorKind::Internal => "internal",
        }
    }

    /// The word that a failure's summary shows for the kind.
    pub open spec fn name(self) -> Seq<char> {
        match self {
            ErrorKind::Configuration => "configuration"@,
            ErrorKind::Evaluation => "evaluation"@,
            ErrorKind::Realization => "realization"@,
            ErrorKind::Transport => "transport"@,
            ErrorKind::Policy => "policy"@,
            ErrorKind::Activation => "activation"@,
            ErrorKind::Cancelled => "cancelled"@,
            ErrorKind::Unsupported => "unsupported"@,
            ErrorKind::Internal => "internal"@,
        }
    }
}

} // verus!
