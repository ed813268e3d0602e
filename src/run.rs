//! The decisions of one run: fetch, filter the unseen items, deliver them to
//! every sink, and record them. The caller performs each action and reports
//! its outcome as the next event.
//!
//! A sink's failure is isolated: every sink is offered the new items whatever
//! happened to the ones before it, and the items are recorded as soon as at
//! least one sink took them. Every other failure ends the run.
//!
//! Delivery is at least once: when the sinks took the items but recording
//! them failed, the ledger is unchanged, so the next run finds the same items
//! unseen and delivers them again.
use vstd::prelude::*;

verus! {

/// The stages of a run.
#[derive(PartialEq, Eq, Structural, Clone, Copy, Debug)]
pub enum Step {
    Fetch,
    FilterUnseen,
    DeliverAll,
    RecordSeen,
}

/// Where a run stands.
#[derive(PartialEq, Eq, Structural, Clone, Copy, Debug)]
pub enum Phase {
    Fetching,
    Filtering,
    Delivering,
    Recording,
    Succeeded,
    Failed(Step),
}

/// The outcome of the last action, as reported by the caller.
#[derive(PartialEq, Eq, Structural, Clone, Copy, Debug)]
pub enum Event {
    Fetched(bool),
    Filtered(bool),
    Pushed(bool),
    Recorded(bool),
}

/// What the caller is to do next.
#[derive(PartialEq, Eq, Structural, Clone, Copy, Debug)]
pub enum Action {
    /// Fetch the outstanding items from the upstream source.
    Fetch,
    /// Keep the fetched items that the ledger has not seen.
    FilterUnseen,
    /// Hand the unseen items to the sink with this index.
    Push(usize),
    /// Record the unseen items in the ledger.
    Record,
    /// The run is over.
    Finish,
    /// The event does not belong to the current phase; nothing to do.
    Ignore,
}

/// The state of a run as a mathematical value.
pub struct RunView {
    pub phase: Phase,
    pub sink_count: nat,
    /// For each sink, whether it hands the new items on (and not only, say,
    /// a count of them).
    pub announces: Seq<bool>,
    pub next_sink: nat,
    pub results: Seq<bool>,
}

/// Whether some sink that hands the items on took them.
pub open spec fn any_delivered(results: Seq<bool>, announces: Seq<bool>) -> bool {
    exists|i: int| 0 <= i < results.len() && results[i] && i < announces.len() && announces[i]
}

/// One transition: the next state and the action to perform.
pub open spec fn transition(s: RunView, e: Event) -> (RunView, Action) {
    match (s.phase, e) {
        (Phase::Fetching, Event::Fetched(ok)) => if ok {
            (RunView { phase: Phase::Filtering, ..s }, Action::FilterUnseen)
        } else {
            (RunView { phase: Phase::Failed(Step::Fetch), ..s }, Action::Finish)
        },
        (Phase::Filtering, Event::Filtered(ok)) => if !ok {
            (RunView { phase: Phase::Failed(Step::FilterUnseen), ..s }, Action::Finish)
        } else if s.sink_count == 0 {
            (RunView { phase: Phase::Succeeded, ..s }, Action::Finish)
        } else {
            (RunView { phase: Phase::Delivering, next_sink: 1, ..s }, Action::Push(0))
        },
        (Phase::Delivering, Event::Pushed(ok)) => {
            let results = s.results.push(ok);
            if s.next_sink < s.sink_count {
                (
                    RunView { next_sink: s.next_sink + 1, results, ..s },
                    Action::Push(s.next_sink as usize),
                )
            } else if any_delivered(results, s.announces) {
                (RunView { phase: Phase::Recording, results, ..s }, Action::Record)
            } else {
                (
                    RunView { phase: Phase::Failed(Step::DeliverAll), results, ..s },
                    Action::Finish,
                )
            }
        },
        (Phase::Recording, Event::Recorded(ok)) => if ok {
            (RunView { phase: Phase::Succeeded, ..s }, Action::Finish)
        } else {
            (RunView { phase: Phase::Failed(Step::RecordSeen), ..s }, Action::Finish)
        },
        _ => (s, Action::Ignore),
    }
}

/// The state reached from `s` by reporting the push outcomes `rs` in order.
pub open spec fn after_pushes(s: RunView, rs: Seq<bool>) -> RunView
    decreases rs.len(),
{
    if rs.len() == 0 {
        s
    } else {
        transition(after_pushes(s, rs.drop_last()), Event::Pushed(rs.last())).0
    }
}

/// The state of a run over the sinks that `announces` describes, once the
/// unseen items are known.
pub open spec fn filtered_state(announces: Seq<bool>) -> RunView {
    RunView {
        phase: Phase::Filtering,
        sink_count: announces.len(),
        next_sink: 0,
        results: Seq::empty(),
        announces,
    }
}

/// Delivery isolates failures: once the unseen items are known, every sink is
/// offered them in turn whatever the earlier sinks reported, and the run goes
/// on to record them exactly when at least one sink that hands them on took
/// them.
pub proof fn lemma_fanout_isolation(announces: Seq<bool>, rs: Seq<bool>)
    requires
        announces.len() > 0,
        rs.len() == announces.len(),
    ensures
        transition(filtered_state(announces), Event::Filtered(true)).1 == Action::Push(0),
        forall|k: int|
            0 <= k < rs.len() - 1 ==> #[trigger] transition(
                after_pushes(transition(filtered_state(announces), Event::Filtered(true)).0, rs.take(k)),
                Event::Pushed(rs[k]),
            ).1 == Action::Push((k + 1) as usize),
        transition(
            after_pushes(transition(filtered_state(announces), Event::Filtered(true)).0, rs.take(rs.len() - 1)),
            Event::Pushed(rs[rs.len() - 1]),
        ).1 == if any_delivered(rs, announces) {
            Action::Record
        } else {
            Action::Finish
        },
        after_pushes(transition(filtered_state(announces), Event::Filtered(true)).0, rs).phase == if any_delivered(
            rs,
            announces,
        ) {
            Phase::Recording
        } else {
            Phase::Failed(Step::DeliverAll)
        },
{
    let s0 = transition(filtered_state(announces), Event::Filtered(true)).0;
    assert forall|k: int| 0 <= k < rs.len() - 1 implies #[trigger] transition(
        after_pushes(s0, rs.take(k)),
        Event::Pushed(rs[k]),
    ).1 == Action::Push((k + 1) as usize) by {
        lemma_delivering_prefix(announces, rs, k);
    }
    lemma_delivering_prefix(announces, rs, rs.len() - 1);
    assert(rs.take(rs.len() - 1).push(rs[rs.len() - 1]) =~= rs);
    assert(rs.take(rs.len() as int) =~= rs);
    assert(rs.take(rs.len() as int).drop_last() =~= rs.take(rs.len() - 1));
}

proof fn lemma_delivering_prefix(announces: Seq<bool>, rs: Seq<bool>, k: int)
    requires
        announces.len() > 0,
        rs.len() == announces.len(),
        0 <= k < rs.len(),
    ensures
        after_pushes(transition(filtered_state(announces), Event::Filtered(true)).0, rs.take(k)) == (RunView {
            phase: Phase::Delivering,
            sink_count: announces.len(),
            next_sink: (k + 1) as nat,
            results: rs.take(k),
            announces,
        }),
    decreases k,
{
    let s0 = transition(filtered_state(announces), Event::Filtered(true)).0;
    if k == 0 {
        assert(rs.take(0) =~= Seq::<bool>::empty());
    } else {
        lemma_delivering_prefix(announces, rs, k - 1);
        assert(rs.take(k).drop_last() =~= rs.take(k - 1));
        assert(rs.take(k).last() == rs[k - 1]);
        assert(rs.take(k - 1).push(rs[k - 1]) =~= rs.take(k));
    }
}

/// One run in progress.
pub struct Run {
    phase: Phase,
    sink_count: usize,
    announces: Vec<bool>,
    next_sink: usize,
    results: Vec<bool>,
}

impl View for Run {
    type V = RunView;

    closed spec fn view(&self) -> RunView {
        RunView {
            phase: self.phase,
            sink_count: self.sink_count as nat,
            announces: self.announces@,
            next_sink: self.next_sink as nat,
            results: self.results@,
        }
    }
}

impl Run {
    /// The bounds every reachable state keeps.
    pub closed spec fn wf(&self) -> bool {
        &&& self.announces@.len() == self.sink_count
        &&& self.next_sink <= self.sink_count
        &&& self.results@.len() <= self.sink_count
        &&& self.phase == Phase::Delivering ==> self.results@.len() + 1 == self.next_sink
        &&& (self.phase == Phase::Fetching || self.phase == Phase::Filtering) ==> self.results@.len()
            == 0 && self.next_sink == 0
    }

    /// A run over one sink per entry of `announces`, which tells whether that
    /// sink hands the new items on; its first action is to fetch.
    pub fn start(announces: Vec<bool>) -> (r: (Run, Action))
        ensures
            r.0.wf(),
            r.0@ == (RunView {
                phase: Phase::Fetching,
                sink_count: announces@.len(),
                next_sink: 0,
                results: Seq::empty(),
                announces: announces@,
            }),
            r.1 == Action::Fetch,
    {
        let sink_count = announces.len();
        (Run { phase: Phase::Fetching, sink_count, announces, next_sink: 0, results: Vec::new() }, Action::Fetch)
    }

    /// Where the run stands.
    pub fn phase(&self) -> (r: Phase)
        ensures
            r == self@.phase,
    {
        self.phase
    }

    /// Takes the outcome of the last action and returns the next one.
    pub fn step(&mut self, event: Event) -> (a: Action)
        requires
            old(self).wf(),
        ensures
            final(self).wf(),
            (final(self)@, a) == transition(old(self)@, event),
    {
        match (self.phase, event) {
            (Phase::Fetching, Event::Fetched(ok)) => {
                if ok {
                    self.phase = Phase::Filtering;
                    Action::FilterUnseen
                } else {
                    self.phase = Phase::Failed(Step::Fetch);
                    Action::Finish
                }
            },
            (Phase::Filtering, Event::Filtered(ok)) => {
                if !ok {
                    self.phase = Phase::Failed(Step::FilterUnseen);
                    Action::Finish
                } else if self.sink_count == 0 {
                    self.phase = Phase::Succeeded;
                    Action::Finish
                } else {
                    self.phase = Phase::Delivering;
                    self.next_sink = 1;
                    Action::Push(0)
                }
            },
            (Phase::Delivering, Event::Pushed(ok)) => {
                self.results.push(ok);
                if self.next_sink < self.sink_count {
                    let i = self.next_sink;
                    self.next_sink = i + 1;
                    Action::Push(i)
                } else if self.delivered_somewhere() {
                    self.phase = Phase::Recording;
                    Action::Record
                } else {
                    self.phase = Phase::Failed(Step::DeliverAll);
                    Action::Finish
                }
            },
            (Phase::Recording, Event::Recorded(ok)) => {
                if ok {
                    self.phase = Phase::Succeeded;
                } else {
                    self.phase = Phase::Failed(Step::RecordSeen);
                }
                Action::Finish
            },
            _ => Action::Ignore,
        }
    }

    fn delivered_somewhere(&self) -> (r: bool)
        ensures
            r == any_delivered(self.results@, self.announces@),
    {
        let mut i: usize = 0;
        while i < self.results.len()
            invariant
                i <= self.results@.len(),
                forall|j: int|
                    0 <= j < i ==> !(self.results@[j] && j < self.announces@.len()
                        && self.announces@[j]),
            decreases self.results@.len() - i,
        {
            if self.results[i] && i < self.announces.len() && self.announces[i] {
                return true;
            }
            i += 1;
        }
        false
    }

    /// The indices of the sinks that failed so far, in order.
    pub fn failed_sinks(&self) -> (r: Vec<usize>)
        ensures
            forall|k: int| 0 <= k < r@.len() ==> #[trigger] r@[k] < self@.results.len() && !self@.results[r@[k] as int],
            forall|j: int| 0 <= j < self@.results.len() && !self@.results[j] ==> r@.contains(j as usize),
            forall|k: int, l: int| 0 <= k < l < r@.len() ==> r@[k] < r@[l],
    {
        let mut r: Vec<usize> = Vec::new();
        let mut i: usize = 0;
        while i < self.results.len()
            invariant
                i <= self.results@.len(),
                forall|k: int| 0 <= k < r@.len() ==> #[trigger] r@[k] < i && !self.results@[r@[k] as int],
                forall|j: int| 0 <= j < i && !self.results@[j] ==> r@.contains(j as usize),
                forall|k: int, l: int| 0 <= k < l < r@.len() ==> r@[k] < r@[l],
            decreases self.results@.len() - i,
        {
            if !self.results[i] {
                let ghost before = r@;
                r.push(i);
                assert(r@[before.len() as int] == i);
                assert forall|j: int| 0 <= j < i && !self.results@[j] implies r@.contains(j as usize) by {
                    let k = choose|k: int| 0 <= k < before.len() && before[k] == j as usize;
                    assert(r@[k] == before[k]);
                }
            }
            i += 1;
        }
        r
    }
}

} // verus!
