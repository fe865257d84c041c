//! Jobs: the records of the work that a deployment does, and the events
//! that tell of it.

use crate::error::NixError;
use crate::stage::JobType;
use vstd::prelude::*;

verus! {

/// Where a job stands.
#[derive(Clone, Copy, Debug, PartialEq, Eq, Structural)]
pub enum JobState {
    /// Created and not yet started.
    Pending,
    /// Started and not yet ended.
    Running,
    /// Ended well.
    Succeeded,
    /// Ended with an error.
    Failed(NixError),
}

/// What an event says of a job that exists.
#[derive(Clone, Copy, Debug, PartialEq, Eq, Structural)]
pub enum Signal {
    /// The job has started.
    Started,
    /// The job has something to say.
    Message,
    /// The job has ended well.
    Succeeded,
    /// The job has ended with an error.
    Failed(NixError),
}

impl Signal {
    /// Whether the signal ends a job.
    pub open spec fn spec_is_terminal(&self) -> bool {
        *self == Signal::Succeeded || *self is Failed
    }

    /// The reason with which the jobs below a job are closed when this
    /// signal ends it: the job's own error, or cancellation where the job
    /// ended well over work that was still open.
    pub open spec fn spec_closing_reason(&self) -> NixError {
        match *self {
            Signal::Failed(e) => e,
            _ => NixError::Cancelled,
        }
    }

    /// The signal that ends a job whose work came to `outcome`.
    pub open spec fn ending(outcome: Result<(), NixError>) -> Signal {
        match outcome {
            Ok(_) => Signal::Succeeded,
            Err(e) => Signal::Failed(e),
        }
    }

    /// Whether the signal ends a job.
    #[verifier::when_used_as_spec(spec_is_terminal)]
    pub fn is_terminal(&self) -> (r: bool)
        ensures
            r == self.spec_is_terminal(),
    {
        matches!(self, Signal::Succeeded | Signal::Failed(_))
    }

    /// The reason with which the jobs below a job are closed when this signal ends it.
    #[verifier::when_used_as_spec(spec_closing_reason)]
    pub fn closing_reason(&self) -> (r: NixError)
        ensures
            r == self.spec_closing_reason(),
    {
        match self {
            Signal::Failed(e) => *e,
            _ => NixError::Cancelled,
        }
    }
}

impl JobState {
    /// Whether the job has ended.
    pub open spec fn spec_is_terminal(&self) -> bool {
        *self == JobState::Succeeded || *self is Failed
    }

    /// The state after a signal, where the job can take the signal. A
    /// pending job can start, or fail without having run. A running job
    /// can speak, and end either way. A job that has ended takes nothing.
    pub open spec fn after(&self, signal: Signal) -> Option<JobState> {
        match (*self, signal) {
            (JobState::Pending, Signal::Started) => Some(JobState::Running),
            (JobState::Pending, Signal::Failed(e)) => Some(JobState::Failed(e)),
            (JobState::Running, Signal::Message) => Some(JobState::Running),
            (JobState::Running, Signal::Succeeded) => Some(JobState::Succeeded),
            (JobState::Running, Signal::Failed(e)) => Some(JobState::Failed(e)),
            _ => None,
        }
    }

    /// Whether the job has ended.
    #[verifier::when_used_as_spec(spec_is_terminal)]
    pub fn is_terminal(&self) -> (r: bool)
        ensures
            r == self.spec_is_terminal(),
    {
        matches!(self, JobState::Succeeded | JobState::Failed(_))
    }

    /// The state after a signal, where the job can take the signal.
    pub fn on(&self, signal: Signal) -> (r: Option<JobState>)
        ensures
            r == self.after(signal),
    {
        match (self, signal) {
            (JobState::Pending, Signal::Started) => Some(JobState::Running),
            (JobState::Pending, Signal::Failed(e)) => Some(JobState::Failed(e)),
            (JobState::Running, Signal::Message) => Some(JobState::Running),
            (JobState::Running, Signal::Succeeded) => Some(JobState::Succeeded),
            (JobState::Running, Signal::Failed(e)) => Some(JobState::Failed(e)),
            _ => None,
        }
    }
}

/// The state of a job that has taken the signals, one after the other,
/// since it was created; `None` if it could not take one of them.
pub open spec fn after_signals(signals: Seq<Signal>) -> Option<JobState>
    decreases signals.len(),
{
    if signals.len() == 0 {
        Some(JobState::Pending)
    } else {
        match after_signals(signals.drop_last()) {
            Some(state) => state.after(signals.last()),
            None => None,
        }
    }
}

/// How many of the signals end a job.
pub open spec fn terminal_count(signals: Seq<Signal>) -> nat
    decreases signals.len(),
{
    if signals.len() == 0 {
        0
    } else {
        terminal_count(signals.drop_last()) + if signals.last().is_terminal() {
            1nat
        } else {
            0nat
        }
    }
}

/// A job that took some signals took every shorter run of them.
pub proof fn lemma_prefix_taken(signals: Seq<Signal>, k: int)
    requires
        after_signals(signals) is Some,
        0 <= k <= signals.len(),
    ensures
        after_signals(signals.take(k)) is Some,
    decreases signals.len(),
{
    if k == signals.len() {
        assert(signals.take(k) =~= signals);
    } else {
        assert(signals.drop_last().take(k) =~= signals.take(k));
        lemma_prefix_taken(signals.drop_last(), k);
    }
}

/// The shape of the signals that a job can take: a job that is still
/// pending took none; a job that runs took the start first and has not
/// ended; a job that has ended took exactly one signal that ends a job, as
/// its last.
pub proof fn lemma_one_terminal(signals: Seq<Signal>)
    requires
        after_signals(signals) is Some,
    ensures
        terminal_count(signals) <= 1,
        after_signals(signals)->0.is_terminal() <==> terminal_count(signals) == 1,
        after_signals(signals)->0 == JobState::Pending ==> signals.len() == 0,
        after_signals(signals)->0 == JobState::Running ==> signals.len() > 0 && signals[0]
            == Signal::Started,
        forall|k: int|
            0 <= k < signals.len() && (#[trigger] signals[k]).is_terminal() ==> k == signals.len()
                - 1,
    decreases signals.len(),
{
    if signals.len() > 0 {
        let earlier = signals.drop_last();
        lemma_one_terminal(earlier);
        assert forall|k: int|
            0 <= k < signals.len() && (#[trigger] signals[k]).is_terminal() implies k
            == signals.len() - 1 by {
            if k < signals.len() - 1 {
                assert(earlier[k] == signals[k]);
            }
        }
        if earlier.len() > 0 {
            assert(earlier[0] == signals[0]);
        }
    }
}

/// A job speaks only after it has started: where a job took a message,
/// the first signal that it took was its start, before the message.
pub proof fn lemma_message_after_start(signals: Seq<Signal>, k: int)
    requires
        after_signals(signals) is Some,
        0 <= k < signals.len(),
        signals[k] == Signal::Message,
    ensures
        k > 0,
        signals[0] == Signal::Started,
{
    lemma_prefix_taken(signals, k + 1);
    let upto = signals.take(k + 1);
    assert(upto.drop_last() =~= signals.take(k));
    assert(upto.last() == Signal::Message);
    lemma_one_terminal(signals.take(k));
    assert(after_signals(signals.take(k))->0 == JobState::Running);
    assert(signals.take(k)[0] == signals[0]);
}

/// The signals of one run of a job that says `messages` things and whose
/// work comes to `outcome`: the start, the messages, and the one signal
/// that ends the job.
pub open spec fn run_signals(messages: nat, outcome: Result<(), NixError>) -> Seq<Signal> {
    seq![Signal::Started] + Seq::new(messages, |i: int| Signal::Message) + seq![
        Signal::ending(outcome),
    ]
}

/// A job that has started and spoken runs.
pub proof fn lemma_started_runs(messages: nat)
    ensures
        after_signals(seq![Signal::Started] + Seq::new(messages, |i: int| Signal::Message))
            == Some(JobState::Running),
    decreases messages,
{
    let signals = seq![Signal::Started] + Seq::new(messages, |i: int| Signal::Message);
    if messages == 0 {
        assert(signals.drop_last() =~= Seq::<Signal>::empty());
        assert(after_signals(Seq::<Signal>::empty()) == Some(JobState::Pending));
        assert(signals.last() == Signal::Started);
    } else {
        lemma_started_runs((messages - 1) as nat);
        assert(signals.drop_last() =~= seq![Signal::Started] + Seq::new(
            (messages - 1) as nat,
            |i: int| Signal::Message,
        ));
        assert(signals.last() == Signal::Message);
    }
}

/// However its work ends, a run takes a pending job to its end, with
/// exactly one signal that ends it.
pub proof fn lemma_run_ends_once(messages: nat, outcome: Result<(), NixError>)
    ensures
        after_signals(run_signals(messages, outcome)) is Some,
        after_signals(run_signals(messages, outcome))->0.is_terminal(),
        terminal_count(run_signals(messages, outcome)) == 1,
        outcome is Ok ==> after_signals(run_signals(messages, outcome)) == Some(
            JobState::Succeeded,
        ),
        outcome is Err ==> after_signals(run_signals(messages, outcome)) == Some(
            JobState::Failed(outcome->Err_0),
        ),
{
    let signals = run_signals(messages, outcome);
    lemma_started_runs(messages);
    assert(signals.drop_last() =~= seq![Signal::Started] + Seq::new(
        messages,
        |i: int| Signal::Message,
    ));
    lemma_one_terminal(signals);
}

} // verus!
