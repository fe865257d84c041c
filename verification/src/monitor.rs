//! The job monitor: the tree of all jobs of a deployment, kept up to date
//! from the events that the jobs send.

use crate::error::NixError;
use crate::job::{after_signals, lemma_one_terminal, terminal_count, JobState, Signal};
use crate::stage::JobType;
use crate::text::strings_view;
use vstd::prelude::*;

verus! {

/// The node lists of a sequence of jobs, as plain values.
pub open spec fn node_lists(v: Seq<Vec<usize>>) -> Seq<Seq<usize>> {
    Seq::new(v.len(), |i: int| v[i]@)
}

/// The job tree as a plain value. A job's id is its place in each sequence.
pub struct TreeView {
    /// For every job, the job that created it.
    pub parents: Seq<Option<usize>>,
    /// For every job, the kind of its work.
    pub types: Seq<JobType>,
    /// For every job, the nodes that it works on.
    pub nodes: Seq<Seq<usize>>,
    /// For every job, where it stands.
    pub states: Seq<JobState>,
    /// For every job, when it last changed.
    pub stamps: Seq<u64>,
    /// For every job, what it said last.
    pub messages: Seq<Seq<char>>,
    /// For every job, the signals that it took, in order.
    pub logs: Seq<Seq<Signal>>,
    /// The latest time that the tree has seen.
    pub clock: u64,
}

impl TreeView {
    /// The number of jobs.
    pub open spec fn len(self) -> nat {
        self.states.len()
    }

    /// What holds of every job tree: every job stands where the signals
    /// that it took have led it; a job was created after the job that
    /// created it; no job changed later than the tree's clock says; and
    /// under a job that has ended every job has ended, and no later than it.
    pub open spec fn wf(self) -> bool {
        &&& self.parents.len() == self.len()
        &&& self.types.len() == self.len()
        &&& self.nodes.len() == self.len()
        &&& self.stamps.len() == self.len()
        &&& self.messages.len() == self.len()
        &&& self.logs.len() == self.len()
        &&& forall|id: int|
            0 <= id < self.len() ==> after_signals(#[trigger] self.logs[id]) == Some(
                self.states[id],
            )
        &&& forall|id: int|
            0 <= id < self.len() && (#[trigger] self.parents[id]) is Some ==> self.parents[id]->0
                < id
        &&& forall|id: int| 0 <= id < self.len() ==> #[trigger] self.stamps[id] <= self.clock
        &&& forall|id: int|
            0 <= id < self.len() && (#[trigger] self.parents[id]) is Some
                && self.states[self.parents[id]->0 as int].is_terminal()
                ==> self.states[id].is_terminal() && self.stamps[id]
                <= self.stamps[self.parents[id]->0 as int]
    }

    /// Whether the job `id` lies below the job `root` in the tree.
    pub open spec fn under(self, id: int, root: int) -> bool
        decreases id,
    {
        if id <= root || id >= self.parents.len() {
            false
        } else {
            match self.parents[id] {
                Some(p) => p == root || (p < id && self.under(p as int, root)),
                None => false,
            }
        }
    }

    /// The time that an event at `now` is stamped with: the tree's clock never goes back.
    pub open spec fn stamp(self, now: u64) -> u64 {
        if now > self.clock {
            now
        } else {
            self.clock
        }
    }

    /// Whether a job can be created under `parent`: the parent exists and has not ended.
    pub open spec fn accepts_job(self, parent: usize) -> bool {
        parent < self.len() && !self.states[parent as int].is_terminal()
    }

    /// Whether the job `id` exists and can take the signal.
    pub open spec fn accepts(self, id: usize, signal: Signal) -> bool {
        id < self.len() && self.states[id as int].after(signal) is Some
    }

    /// Whether a signal that the job `id` takes closes the job `j`: it
    /// does where it ends `id` and `j` lies below `id` and has not ended.
    pub open spec fn closes(self, j: int, id: usize, signal: Signal) -> bool {
        signal.is_terminal() && self.under(j, id as int) && !self.states[j].is_terminal()
    }

    /// The tree with one pending job more, created under `parent` at `now`.
    pub open spec fn after_job(
        self,
        parent: Option<usize>,
        job_type: JobType,
        nodes: Seq<usize>,
        now: u64,
    ) -> TreeView {
        TreeView {
            parents: self.parents.push(parent),
            types: self.types.push(job_type),
            nodes: self.nodes.push(nodes),
            states: self.states.push(JobState::Pending),
            stamps: self.stamps.push(self.stamp(now)),
            messages: self.messages.push(Seq::empty()),
            logs: self.logs.push(Seq::empty()),
            clock: self.stamp(now),
        }
    }

    /// The tree after the job `id` took a signal at `now`. The job moves
    /// on and remembers the text if the signal was a message. A signal
    /// that ends the job closes every job below it that had not ended: such
    /// a job fails at the same time, with the reason that the signal gives.
    /// A signal that the job cannot take changes nothing.
    pub open spec fn after_signal(self, id: usize, signal: Signal, text: Seq<char>, now: u64) -> TreeView {
        if !self.accepts(id, signal) {
            self
        } else {
            let t = self.stamp(now);
            let reason = signal.closing_reason();
            TreeView {
                states: Seq::new(
                    self.len(),
                    |j: int|
                        if j == id {
                            self.states[id as int].after(signal)->0
                        } else if self.closes(j, id, signal) {
                            JobState::Failed(reason)
                        } else {
                            self.states[j]
                        },
                ),
                stamps: Seq::new(
                    self.len(),
                    |j: int|
                        if j == id || self.closes(j, id, signal) {
                            t
                        } else {
                            self.stamps[j]
                        },
                ),
                logs: Seq::new(
                    self.len(),
                    |j: int|
                        if j == id {
                            self.logs[j].push(signal)
                        } else if self.closes(j, id, signal) {
                            self.logs[j].push(Signal::Failed(reason))
                        } else {
                            self.logs[j]
                        },
                ),
                messages: if signal == Signal::Message {
                    self.messages.update(id as int, text)
                } else {
                    self.messages
                },
                clock: t,
                ..self
            }
        }
    }
}

/// A new job leaves the tree in order.
pub proof fn lemma_job_wf(
    v: TreeView,
    parent: Option<usize>,
    job_type: JobType,
    nodes: Seq<usize>,
    now: u64,
)
    requires
        v.wf(),
        parent is Some ==> v.accepts_job(parent->0),
    ensures
        v.after_job(parent, job_type, nodes, now).wf(),
{
    let after = v.after_job(parent, job_type, nodes, now);
    assert(after_signals(Seq::<Signal>::empty()) == Some(JobState::Pending));
    assert forall|id: int| 0 <= id < after.len() implies after_signals(#[trigger] after.logs[id])
        == Some(after.states[id]) by {
        if id < v.len() {
            assert(after.logs[id] == v.logs[id]);
        }
    }
    assert forall|id: int|
        0 <= id < after.len() && (#[trigger] after.parents[id]) is Some
            && after.states[after.parents[id]->0 as int].is_terminal() implies after.states[id].is_terminal()
        && after.stamps[id] <= after.stamps[after.parents[id]->0 as int] by {
        if id < v.len() {
            assert(after.parents[id] == v.parents[id]);
        }
    }
    assert forall|id: int|
        0 <= id < after.len() && (#[trigger] after.parents[id]) is Some implies after.parents[id]->0
        < id by {
        if id < v.len() {
            assert(after.parents[id] == v.parents[id]);
        }
    }
    assert forall|id: int| 0 <= id < after.len() implies #[trigger] after.stamps[id]
        <= after.clock by {
        if id < v.len() {
            assert(after.stamps[id] == v.stamps[id]);
        }
    }
}

/// A signal leaves the tree in order.
pub proof fn lemma_signal_wf(v: TreeView, id: usize, signal: Signal, text: Seq<char>, now: u64)
    requires
        v.wf(),
    ensures
        v.after_signal(id, signal, text, now).wf(),
{
    if v.accepts(id, signal) {
        let after = v.after_signal(id, signal, text, now);
        let reason = signal.closing_reason();
        assert forall|j: int| 0 <= j < after.len() implies after_signals(#[trigger] after.logs[j])
            == Some(after.states[j]) by {
            assert(after_signals(v.logs[j]) == Some(v.states[j]));
            if j == id {
                assert(after.logs[j].drop_last() =~= v.logs[j]);
                assert(after.logs[j].last() == signal);
            } else if v.closes(j, id, signal) {
                assert(after.logs[j].drop_last() =~= v.logs[j]);
                assert(after.logs[j].last() == Signal::Failed(reason));
            }
        }
        assert forall|j: int| 0 <= j < after.len() implies #[trigger] after.stamps[j]
            <= after.clock by {
            assert(v.stamps[j] <= v.clock);
        }
        assert forall|j: int|
            0 <= j < after.len() && (#[trigger] after.parents[j]) is Some
                && after.states[after.parents[j]->0 as int].is_terminal() implies after.states[j].is_terminal()
            && after.stamps[j] <= after.stamps[after.parents[j]->0 as int] by {
            let p = v.parents[j]->0 as int;
            assert(p < j);
            assert(v.stamps[j] <= v.clock);
            assert(v.stamps[p] <= v.clock);
            if p == id || v.closes(p, id, signal) {
                assert(signal.is_terminal());
                assert(v.under(j, id as int));
            } else {
                assert(after.states[p] == v.states[p]);
                assert(v.states[j].is_terminal());
                assert(j != id);
                assert(!v.closes(j, id, signal));
            }
        }
    }
}

/// The time of a job's last change never goes back, and neither does the
/// tree's clock.
pub proof fn lemma_stamps_never_go_back(
    v: TreeView,
    id: usize,
    signal: Signal,
    text: Seq<char>,
    now: u64,
    job: int,
)
    requires
        v.wf(),
        0 <= job < v.len(),
    ensures
        v.after_signal(id, signal, text, now).stamps[job] >= v.stamps[job],
        v.after_signal(id, signal, text, now).clock >= v.clock,
{
}

/// For every job of a tree in order, exactly one of the signals that it
/// took ended it if it has ended, and none did if it has not; and whatever
/// it said, it said after its start.
pub proof fn lemma_jobs_end_once(v: TreeView, id: int)
    requires
        v.wf(),
        0 <= id < v.len(),
    ensures
        terminal_count(v.logs[id]) <= 1,
        v.states[id].is_terminal() <==> terminal_count(v.logs[id]) == 1,
        forall|k: int|
            0 <= k < v.logs[id].len() && (#[trigger] v.logs[id][k]).is_terminal() ==> k
                == v.logs[id].len() - 1,
        forall|k: int|
            0 <= k < v.logs[id].len() && #[trigger] v.logs[id][k] == Signal::Message ==> k > 0
                && v.logs[id][0] == Signal::Started,
{
    lemma_one_terminal(v.logs[id]);
    assert forall|k: int|
        0 <= k < v.logs[id].len() && #[trigger] v.logs[id][k] == Signal::Message implies k > 0
        && v.logs[id][0] == Signal::Started by {
        crate::job::lemma_message_after_start(v.logs[id], k);
    }
}

/// The job monitor.
pub struct JobMonitor {
    parents: Vec<Option<usize>>,
    types: Vec<JobType>,
    nodes: Vec<Vec<usize>>,
    states: Vec<JobState>,
    stamps: Vec<u64>,
    messages: Vec<String>,
    logs: Ghost<Seq<Seq<Signal>>>,
    clock: u64,
}

impl View for JobMonitor {
    type V = TreeView;

    closed spec fn view(&self) -> TreeView {
        TreeView {
            parents: self.parents@,
            types: self.types@,
            nodes: node_lists(self.nodes@),
            states: self.states@,
            stamps: self.stamps@,
            messages: strings_view(self.messages@),
            logs: self.logs@,
            clock: self.clock,
        }
    }
}

impl JobMonitor {
    /// Whether the monitor's tree is in order.
    pub open spec fn wf(&self) -> bool {
        self@.wf()
    }

    /// The tree of a deployment that has not begun: one pending job that
    /// groups all others, created at `now`.
    pub open spec fn initial(now: u64) -> TreeView {
        TreeView {
            parents: seq![None],
            types: seq![JobType::Meta],
            nodes: seq![Seq::empty()],
            states: seq![JobState::Pending],
            stamps: seq![now],
            messages: seq![Seq::empty()],
            logs: seq![Seq::empty()],
            clock: now,
        }
    }

    /// A monitor with the one job that groups all others. Its id is 0.
    pub fn new(now: u64) -> (r: JobMonitor)
        ensures
            r.wf(),
            r@ == JobMonitor::initial(now),
    {
        let mut parents: Vec<Option<usize>> = Vec::new();
        parents.push(None);
        let mut types: Vec<JobType> = Vec::new();
        types.push(JobType::Meta);
        let mut nodes: Vec<Vec<usize>> = Vec::new();
        nodes.push(Vec::new());
        let mut states: Vec<JobState> = Vec::new();
        states.push(JobState::Pending);
        let mut stamps: Vec<u64> = Vec::new();
        stamps.push(now);
        let mut messages: Vec<String> = Vec::new();
        messages.push(String::new());
        let logs: Ghost<Seq<Seq<Signal>>> = Ghost(Seq::empty().push(Seq::empty()));
        let r = JobMonitor { parents, types, nodes, states, stamps, messages, logs, clock: now };
        proof {
            let v = JobMonitor::initial(now);
            assert(r@.parents =~= v.parents);
            assert(r@.types =~= v.types);
            assert(r@.nodes =~= v.nodes);
            assert(r@.states =~= v.states);
            assert(r@.stamps =~= v.stamps);
            assert(r@.messages =~= v.messages);
            assert(r@.logs =~= v.logs);
            assert(after_signals(Seq::<Signal>::empty()) == Some(JobState::Pending));
        }
        r
    }

    /// The number of jobs.
    pub fn len(&self) -> (r: usize)
        requires
            self.wf(),
        ensures
            r == self@.len(),
    {
        self.states.len()
    }

    /// Where a job stands, if there is such a job.
    pub fn state(&self, id: usize) -> (r: Option<JobState>)
        requires
            self.wf(),
        ensures
            r == (if id < self@.len() {
                Some(self@.states[id as int])
            } else {
                None
            }),
    {
        if id < self.states.len() {
            Some(self.states[id])
        } else {
            None
        }
    }

    /// When a job last changed, if there is such a job.
    pub fn updated_at(&self, id: usize) -> (r: Option<u64>)
        requires
            self.wf(),
        ensures
            r == (if id < self@.len() {
                Some(self@.stamps[id as int])
            } else {
                None
            }),
    {
        if id < self.stamps.len() {
            Some(self.stamps[id])
        } else {
            None
        }
    }

    /// The kind of a job's work, if there is such a job.
    pub fn job_type(&self, id: usize) -> (r: Option<JobType>)
        requires
            self.wf(),
        ensures
            r == (if id < self@.len() {
                Some(self@.types[id as int])
            } else {
                None
            }),
    {
        if id < self.types.len() {
            Some(self.types[id])
        } else {
            None
        }
    }

    /// The job that created a job, if there is such a job and it was not the first.
    pub fn parent(&self, id: usize) -> (r: Option<usize>)
        requires
            self.wf(),
        ensures
            r == (if id < self@.len() {
                self@.parents[id as int]
            } else {
                None
            }),
    {
        if id < self.parents.len() {
            self.parents[id]
        } else {
            None
        }
    }

    /// What a job said last; nothing if it has not spoken or does not exist.
    pub fn last_message(&self, id: usize) -> (r: &str)
        requires
            self.wf(),
        ensures
            r@ == (if id < self@.len() {
                self@.messages[id as int]
            } else {
                Seq::empty()
            }),
    {
        if id < self.messages.len() {
            self.messages[id].as_str()
        } else {
            proof {
                reveal_strlit("");
                assert(""@ =~= Seq::<char>::empty());
            }
            ""
        }
    }

    /// Creates a pending job under `parent`, for work of a kind on some
    /// nodes. A parent that does not exist or has ended takes no job.
    pub fn create_job(&mut self, parent: usize, job_type: JobType, nodes: Vec<usize>, now: u64) -> (r:
        Result<usize, NixError>)
        requires
            old(self).wf(),
        ensures
            final(self).wf(),
            old(self)@.accepts_job(parent) ==> r == Ok::<usize, NixError>(old(self)@.len() as usize)
                && final(self)@ == old(self)@.after_job(Some(parent), job_type, nodes@, now),
            !old(self)@.accepts_job(parent) ==> r == Err::<usize, NixError>(NixError::JobProtocol)
                && final(self)@ == old(self)@,
    {
        let n = self.states.len();
        if parent >= n || self.states[parent].is_terminal() {
            return Err(NixError::JobProtocol);
        }
        let t = if now > self.clock {
            now
        } else {
            self.clock
        };
        let ghost before = self@;
        let ghost after = before.after_job(Some(parent), job_type, nodes@, now);
        proof {
            lemma_job_wf(before, Some(parent), job_type, nodes@, now);
        }
        self.parents.push(Some(parent));
        self.types.push(job_type);
        self.nodes.push(nodes);
        self.states.push(JobState::Pending);
        self.stamps.push(t);
        self.messages.push(String::new());
        self.logs = Ghost(self.logs@.push(Seq::empty()));
        self.clock = t;
        proof {
            assert(self@.nodes =~= after.nodes);
            assert(self@.messages =~= after.messages);
        }
        Ok(n)
    }

    /// Starts a pending job.
    pub fn start(&mut self, id: usize, now: u64) -> (r: Result<(), NixError>)
        requires
            old(self).wf(),
        ensures
            final(self).wf(),
            final(self)@ == old(self)@.after_signal(id, Signal::Started, Seq::empty(), now),
            r is Ok <==> old(self)@.accepts(id, Signal::Started),
            r is Err ==> r->Err_0 == NixError::JobProtocol,
    {
        self.signal(id, Signal::Started, String::new(), now)
    }

    /// Takes what a running job has to say.
    pub fn message(&mut self, id: usize, text: String, now: u64) -> (r: Result<(), NixError>)
        requires
            old(self).wf(),
        ensures
            final(self).wf(),
            final(self)@ == old(self)@.after_signal(id, Signal::Message, text@, now),
            r is Ok <==> old(self)@.accepts(id, Signal::Message),
            r is Err ==> r->Err_0 == NixError::JobProtocol,
    {
        self.signal(id, Signal::Message, text, now)
    }

    /// Ends a job with what its work came to, and closes the jobs below
    /// it that have not ended. However the work ended, the job takes
    /// exactly one signal that ends it; a job that has ended takes no
    /// other.
    pub fn finish(&mut self, id: usize, outcome: Result<(), NixError>, now: u64) -> (r: Result<
        (),
        NixError,
    >)
        requires
            old(self).wf(),
        ensures
            final(self).wf(),
            final(self)@ == old(self)@.after_signal(
                id,
                Signal::ending(outcome),
                Seq::empty(),
                now,
            ),
            r is Ok <==> old(self)@.accepts(id, Signal::ending(outcome)),
            r is Err ==> r->Err_0 == NixError::JobProtocol,
    {
        let signal = match outcome {
            Ok(_) => Signal::Succeeded,
            Err(e) => Signal::Failed(e),
        };
        self.signal(id, signal, String::new(), now)
    }

    fn signal(&mut self, id: usize, signal: Signal, text: String, now: u64) -> (r: Result<
        (),
        NixError,
    >)
        requires
            old(self).wf(),
        ensures
            final(self).wf(),
            final(self)@ == old(self)@.after_signal(id, signal, text@, now),
            r is Ok <==> old(self)@.accepts(id, signal),
            r is Err ==> r->Err_0 == NixError::JobProtocol,
    {
        let n = self.states.len();
        if id >= n {
            return Err(NixError::JobProtocol);
        }
        let state = match self.states[id].on(signal) {
            Some(state) => state,
            None => {
                return Err(NixError::JobProtocol);
            },
        };
        let t = if now > self.clock {
            now
        } else {
            self.clock
        };
        let ghost before = self@;
        let ghost after = before.after_signal(id, signal, text@, now);
        proof {
            lemma_signal_wf(before, id, signal, text@, now);
        }
        let reason = signal.closing_reason();
        self.states.set(id, state);
        self.stamps.set(id, t);
        self.clock = t;
        self.logs = Ghost(self.logs@.update(id as int, self.logs@[id as int].push(signal)));
        if matches!(signal, Signal::Message) {
            self.messages.set(id, text);
        }
        assert(self@.messages =~= after.messages);
        if signal.is_terminal() {
            let mut marks: Vec<bool> = Vec::new();
            let mut m: usize = 0;
            while m < n
                invariant
                    m <= n,
                    marks.len() == m,
                    forall|j: int| 0 <= j < m ==> !marks@[j],
                decreases n - m,
            {
                marks.push(false);
                m = m + 1;
            }
            let mut j: usize = id + 1;
            while j < n
                invariant
                    before.wf(),
                    before.accepts(id, signal),
                    signal.is_terminal(),
                    after == before.after_signal(id, signal, text@, now),
                    reason == signal.closing_reason(),
                    t == before.stamp(now),
                    n == before.len(),
                    id < j <= n,
                    marks.len() == n,
                    self.states.len() == n,
                    self.stamps.len() == n,
                    self.logs@.len() == n,
                    self.parents@ == before.parents,
                    self.types@ == before.types,
                    node_lists(self.nodes@) == before.nodes,
                    strings_view(self.messages@) == after.messages,
                    self.clock == t,
                    forall|k: int| 0 <= k < j ==> marks@[k] == before.under(k, id as int),
                    forall|k: int| j <= k < n ==> !marks@[k],
                    forall|k: int| 0 <= k < j ==> self.states@[k] == after.states[k],
                    forall|k: int| 0 <= k < j ==> self.stamps@[k] == after.stamps[k],
                    forall|k: int| 0 <= k < j ==> self.logs@[k] == after.logs[k],
                    forall|k: int| j <= k < n ==> self.states@[k] == before.states[k],
                    forall|k: int| j <= k < n ==> self.stamps@[k] == before.stamps[k],
                    forall|k: int| j <= k < n ==> self.logs@[k] == before.logs[k],
                decreases n - j,
            {
                let below = match self.parents[j] {
                    Some(p) => p == id || marks[p],
                    None => false,
                };
                assert(below == before.under(j as int, id as int));
                if below {
                    marks.set(j, true);
                    if !self.states[j].is_terminal() {
                        self.states.set(j, JobState::Failed(reason));
                        self.stamps.set(j, t);
                        self.logs = Ghost(
                            self.logs@.update(
                                j as int,
                                self.logs@[j as int].push(Signal::Failed(reason)),
                            ),
                        );
                    }
                }
                j = j + 1;
            }
        }
        proof {
            assert(self@.states =~= after.states);
            assert(self@.stamps =~= after.stamps);
            assert(self@.logs =~= after.logs);
            assert(self@.parents == after.parents);
            assert(self@.types == after.types);
            assert(self@.nodes == after.nodes);
            assert(self@.messages == after.messages);
            assert(self@.clock == after.clock);
        }
        Ok(())
    }
}

} // verus!
