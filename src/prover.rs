use vstd::prelude::*;
use vstd::string::StringExecFns;

verus! {

/// Seconds between two status queries to the remote proving service.
pub const POLL_INTERVAL_SECS: u64 = 10;

/// Seconds after submission past which the remote proof is given up.
pub const POLL_DEADLINE_SECS: u64 = 600;

/// What the host does with the program.
#[derive(Clone, Copy, Debug, PartialEq, Eq, Structural)]
pub enum RunMode {
    /// Run once and report the instruction count.
    Execute,
    /// Make a proof and persist it.
    Prove,
}

/// Where proofs are made.
#[derive(Clone, Copy, Debug, PartialEq, Eq, Structural)]
pub enum Backend {
    Local,
    Network,
}

/// The mode that the two mode flags select: exactly one of them must be set.
pub fn select_mode(execute: bool, prove: bool) -> (r: Option<RunMode>)
    ensures
        r == (if execute == prove {
            None
        } else if execute {
            Some(RunMode::Execute)
        } else {
            Some(RunMode::Prove)
        }),
{
    if execute == prove {
        None
    } else if execute {
        Some(RunMode::Execute)
    } else {
        Some(RunMode::Prove)
    }
}

/// The backend that the prover setting selects: the network exactly when
/// the setting is `network`.
pub fn backend_of(setting: Option<&str>) -> (r: Backend)
    ensures
        r == (match setting {
            Some(s) => if s@ == "network"@ {
                Backend::Network
            } else {
                Backend::Local
            },
            None => Backend::Local,
        }),
{
    match setting {
        Some(s) => {
            let given = String::from_str(s);
            let network = String::from_str("network");
            if given == network {
                Backend::Network
            } else {
                Backend::Local
            }
        },
        None => Backend::Local,
    }
}

/// Where the remote workflow stands.
#[derive(Clone, Copy, Debug, PartialEq, Eq, Structural)]
pub enum PollState {
    Submitted,
    Polling,
    Fulfilled,
    TimedOut,
}

/// What the host does next in the remote workflow.
#[derive(Clone, Copy, Debug, PartialEq, Eq, Structural)]
pub enum PollAction {
    /// Ask the service for the proof's status.
    QueryStatus,
    /// Wait this many seconds, then come back.
    Sleep(u64),
    /// Take the returned proof.
    Accept,
    /// Give up: the deadline has passed.
    Abort,
}

/// The remote-fulfillment workflow: after submission, query the status
/// every `interval` seconds until a proof comes back or `deadline` seconds
/// have passed.
pub struct RemotePoll {
    pub interval: u64,
    pub deadline: u64,
    pub state: PollState,
}

impl RemotePoll {
    /// The workflow right after the request was submitted.
    pub fn new(interval: u64, deadline: u64) -> (r: Self)
        ensures
            r.interval == interval,
            r.deadline == deadline,
            r.state == PollState::Submitted,
    {
        RemotePoll { interval, deadline, state: PollState::Submitted }
    }

    /// Decides, `elapsed` seconds after submission, whether to query again
    /// or give up.
    pub fn before_query(&mut self, elapsed: u64) -> (r: PollAction)
        requires
            old(self).state == PollState::Submitted || old(self).state == PollState::Polling,
        ensures
            final(self).interval == old(self).interval,
            final(self).deadline == old(self).deadline,
            elapsed > old(self).deadline ==> r == PollAction::Abort && final(self).state
                == PollState::TimedOut,
            elapsed <= old(self).deadline ==> r == PollAction::QueryStatus && final(self).state
                == PollState::Polling,
    {
        if elapsed > self.deadline {
            self.state = PollState::TimedOut;
            PollAction::Abort
        } else {
            self.state = PollState::Polling;
            PollAction::QueryStatus
        }
    }

    /// Decides on the service's answer: take the proof where it is ready,
    /// else wait one interval.
    pub fn on_status(&mut self, ready: bool) -> (r: PollAction)
        requires
            old(self).state == PollState::Polling,
        ensures
            final(self).interval == old(self).interval,
            final(self).deadline == old(self).deadline,
            ready ==> r == PollAction::Accept && final(self).state == PollState::Fulfilled,
            !ready ==> r == PollAction::Sleep(old(self).interval) && final(self).state
                == PollState::Polling,
    {
        if ready {
            self.state = PollState::Fulfilled;
            PollAction::Accept
        } else {
            PollAction::Sleep(self.interval)
        }
    }
}

/// The first poll, from `i` to `last`, at which the service answers ready;
/// answers past the end of `ready` are not ready.
pub open spec fn first_ready(ready: Seq<bool>, i: int, last: int) -> Option<int>
    decreases last + 1 - i,
{
    if i > last {
        None
    } else if 0 <= i < ready.len() && ready[i] {
        Some(i)
    } else {
        first_ready(ready, i + 1, last)
    }
}

/// The outcome of the workflow when the `i`-th query happens `i * interval`
/// seconds after submission and is answered `ready[i]`: the poll at which
/// the proof was taken, or `None` for a time-out.
pub open spec fn poll_outcome(interval: nat, deadline: nat, ready: Seq<bool>) -> Option<int>
    recommends
        interval > 0,
{
    first_ready(ready, 0, (deadline / interval) as int)
}

/// Runs the workflow against a clock that advances exactly by each
/// requested sleep, with the service answering `ready[i]` to the `i`-th
/// query (not ready past the end).
pub fn simulate_polls(interval: u64, deadline: u64, ready: &Vec<bool>) -> (r: Option<u64>)
    requires
        interval > 0,
        deadline + interval <= u64::MAX,
    ensures
        match r {
            Some(n) => poll_outcome(interval as nat, deadline as nat, ready@) == Some(n as int),
            None => poll_outcome(interval as nat, deadline as nat, ready@) is None,
        },
{
    let mut poll = RemotePoll::new(interval, deadline);
    let mut elapsed: u64 = 0;
    let mut i: u64 = 0;
    let ghost last = (deadline / interval) as int;
    loop
        invariant
            interval > 0,
            deadline + interval <= u64::MAX,
            poll.interval == interval,
            poll.deadline == deadline,
            poll.state == PollState::Submitted || poll.state == PollState::Polling,
            elapsed as int == i * interval,
            elapsed <= deadline + interval,
            last == (deadline / interval) as int,
            poll_outcome(interval as nat, deadline as nat, ready@) == first_ready(ready@, i as int, last),
        decreases deadline + interval - elapsed,
    {
        let act = poll.before_query(elapsed);
        if act == PollAction::Abort {
            assert(i > last) by (nonlinear_arith)
                requires
                    i * interval > deadline,
                    interval > 0,
                    last == deadline / interval,
            ;
            return None;
        }
        assert(i <= last && i <= deadline) by (nonlinear_arith)
            requires
                i * interval <= deadline,
                interval > 0,
                last == deadline / interval,
        ;
        let answer = i < ready.len() as u64 && ready[i as usize];
        match poll.on_status(answer) {
            PollAction::Sleep(s) => {
                assert((i + 1) * interval == i * interval + interval) by (nonlinear_arith);
                elapsed = elapsed + s;
                i = i + 1;
            },
            _ => {
                return Some(i);
            },
        }
    }
}

/// A service that never answers ready within the deadline makes the
/// workflow time out.
pub proof fn lemma_never_ready_times_out(interval: nat, deadline: nat, ready: Seq<bool>)
    requires
        interval > 0,
        forall|j: int| 0 <= j < ready.len() && j * interval <= deadline ==> !ready[j],
    ensures
        poll_outcome(interval, deadline, ready) is None,
{
    lemma_first_ready_none(interval, deadline, ready, 0);
}

proof fn lemma_first_ready_none(interval: nat, deadline: nat, ready: Seq<bool>, i: int)
    requires
        interval > 0,
        0 <= i,
        forall|j: int| 0 <= j < ready.len() && j * interval <= deadline ==> !ready[j],
    ensures
        first_ready(ready, i, (deadline / interval) as int) is None,
    decreases (deadline / interval) as int + 1 - i,
{
    let last = (deadline / interval) as int;
    if i <= last {
        assert(i * interval <= deadline) by (nonlinear_arith)
            requires
                i <= last,
                last == deadline / interval,
                interval > 0,
                i >= 0,
        ;
        lemma_first_ready_none(interval, deadline, ready, i + 1);
    }
}

/// A service that first answers ready at the `n`-th query, made
/// `n * interval` seconds after submission and no later than the deadline,
/// has its proof taken at that query.
pub proof fn lemma_ready_at_poll(interval: nat, deadline: nat, ready: Seq<bool>, n: int)
    requires
        interval > 0,
        0 <= n < ready.len(),
        ready[n],
        forall|j: int| 0 <= j < n ==> !ready[j],
        n * interval <= deadline,
    ensures
        poll_outcome(interval, deadline, ready) == Some(n),
{
    let last = (deadline / interval) as int;
    assert(n <= last) by (nonlinear_arith)
        requires
            n * interval <= deadline,
            last == deadline / interval,
            interval > 0,
    ;
    lemma_first_ready_from(ready, 0, last, n);
}

proof fn lemma_first_ready_from(ready: Seq<bool>, i: int, last: int, n: int)
    requires
        0 <= i <= n <= last,
        n < ready.len(),
        ready[n],
        forall|j: int| 0 <= j < n ==> !ready[j],
    ensures
        first_ready(ready, i, last) == Some(n),
    decreases n - i,
{
    if i < n {
        lemma_first_ready_from(ready, i + 1, last, n);
    }
}

} // verus!
