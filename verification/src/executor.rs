//! A bounded-concurrency fan-out/fan-in executor model. The library decides
//! what to start and how to assemble results; the surrounding loop performs
//! the items' actual work. Every item is attempted exactly once; a failure
//! on one item is an outcome like any other and never suppresses the rest;
//! at most the configured limit of items is in flight at any moment.

use vstd::prelude::*;
use crate::engine::{DispatchResult, DispatchResultView};

verus! {

/// How the returned outcome sequence is ordered.
#[derive(Clone, Copy, Debug, PartialEq, Eq, Structural)]
pub enum OrderingStrategy {
    /// One outcome per input item, at the item's own input position.
    InputOrder,
    /// Outcomes in the order the items completed.
    CompletionOrder,
}

/// The fan-out scheduler's state: how many items the batch has, how many
/// may run at once, and how many have been started and completed.
#[derive(Clone, Copy, Debug, PartialEq, Eq, Structural)]
pub struct ExecState {
    pub total: usize,
    pub limit: usize,
    pub started: usize,
    pub completed: usize,
}

impl ExecState {
    /// Completion never outruns starting, starting never outruns the batch,
    /// and never are more than `limit` items in flight.
    pub open spec fn wf(&self) -> bool {
        &&& self.limit >= 1
        &&& self.completed <= self.started
        &&& self.started <= self.total
        &&& self.started - self.completed <= self.limit
    }

    /// The items currently in flight.
    pub open spec fn in_flight(&self) -> int {
        self.started - self.completed
    }
}

/// What the scheduler asks the loop to do next.
#[derive(Clone, Copy, Debug, PartialEq, Eq, Structural)]
pub enum SchedStep {
    /// Start working on this item (items are started in input order).
    Start { item: usize },
    /// The limit is reached, or only completions remain: await one.
    Await,
    /// Every item has started and completed.
    Finished,
}

/// What the scheduler decides, as a function of its state alone: start the
/// next unstarted item while the limit allows, otherwise await a completion
/// while any is outstanding, otherwise the batch is finished.
pub open spec fn spec_sched_next(s: ExecState) -> SchedStep {
    if s.started < s.total && s.started - s.completed < s.limit {
        SchedStep::Start { item: s.started }
    } else if s.completed < s.started {
        SchedStep::Await
    } else {
        SchedStep::Finished
    }
}

impl ExecState {
    /// A fresh batch of `total` items with at most `limit` in flight.
    /// A limit of at least the batch size gives unbounded concurrency.
    pub fn new(total: usize, limit: usize) -> (r: ExecState)
        requires
            limit >= 1,
        ensures
            r == (ExecState { total, limit, started: 0usize, completed: 0usize }),
            r.wf(),
    {
        ExecState { total, limit, started: 0, completed: 0 }
    }

    /// What to do next.
    pub fn next(&self) -> (r: SchedStep)
        requires
            self.wf(),
        ensures
            r == spec_sched_next(*self),
    {
        if self.started < self.total && self.started - self.completed < self.limit {
            SchedStep::Start { item: self.started }
        } else if self.completed < self.started {
            SchedStep::Await
        } else {
            SchedStep::Finished
        }
    }

    /// Records that the item the scheduler asked to start is now running.
    /// Each item is started exactly once, in input order.
    pub fn on_started(&mut self)
        requires
            old(self).wf(),
            spec_sched_next(*old(self)) matches SchedStep::Start { item: _ },
        ensures
            final(self).started == old(self).started + 1,
            final(self).completed == old(self).completed,
            final(self).total == old(self).total,
            final(self).limit == old(self).limit,
            final(self).wf(),
            final(self).in_flight() <= final(self).limit,
    {
        self.started = self.started + 1;
    }

    /// Records that one running item finished, whether it succeeded or
    /// failed: a failure completes an item like any success does.
    pub fn on_completed(&mut self)
        requires
            old(self).wf(),
            old(self).completed < old(self).started,
        ensures
            final(self).completed == old(self).completed + 1,
            final(self).started == old(self).started,
            final(self).total == old(self).total,
            final(self).limit == old(self).limit,
            final(self).wf(),
    {
        self.completed = self.completed + 1;
    }
}

/// The scheduler never holds more than `limit` items in flight, and it
/// reports `Finished` exactly when every item of the batch has started and
/// completed.
pub proof fn lemma_scheduler_bounds(s: ExecState)
    requires
        s.wf(),
    ensures
        s.in_flight() <= s.limit,
        spec_sched_next(s) == SchedStep::Finished <==> (s.started == s.total && s.completed
            == s.total),
{
}

/// The first outcome recorded for item `k`, scanning completions in arrival
/// order.
pub open spec fn spec_lookup(c: Seq<(usize, DispatchResultView)>, k: usize) -> Option<
    DispatchResultView,
>
    decreases c.len(),
{
    if c.len() == 0 {
        None
    } else if c[0].0 == k {
        Some(c[0].1)
    } else {
        spec_lookup(c.drop_first(), k)
    }
}

proof fn lemma_lookup_at(c: Seq<(usize, DispatchResultView)>, k: usize, j: int)
    requires
        0 <= j < c.len(),
        c[j].0 == k,
        forall|j2: int| 0 <= j2 < j ==> (#[trigger] c[j2]).0 != k,
    ensures
        spec_lookup(c, k) == Some(c[j].1),
    decreases j,
{
    if j == 0 {
    } else {
        lemma_lookup_at(c.drop_first(), k, j - 1);
    }
}

proof fn lemma_lookup_none(c: Seq<(usize, DispatchResultView)>, k: usize)
    requires
        forall|j: int| 0 <= j < c.len() ==> (#[trigger] c[j]).0 != k,
    ensures
        spec_lookup(c, k) is None,
    decreases c.len(),
{
    if c.len() > 0 {
        lemma_lookup_none(c.drop_first(), k);
    }
}

/// The completion views of a completion list.
pub open spec fn completions_view(c: Seq<(usize, DispatchResult)>) -> Seq<
    (usize, DispatchResultView),
> {
    c.map_values(|p: (usize, DispatchResult)| (p.0, p.1@))
}

/// Assembles the batch's outcomes in input order: one outcome per input
/// position, taken from the first completion recorded for that position.
/// `None` exactly when some position of the batch has no recorded
/// completion — which a finished batch never has, since every item is
/// attempted exactly once.
pub fn collect_in_order(n: usize, completions: &Vec<(usize, DispatchResult)>) -> (r: Option<
    Vec<DispatchResult>,
>)
    ensures
        r matches Some(out) ==> {
            &&& out@.len() == n
            &&& forall|k: int| 0 <= k < n ==> spec_lookup(completions_view(completions@), k as usize)
                == Some((#[trigger] out@[k])@)
        },
        r is None <==> exists|k: usize| k < n && (#[trigger] spec_lookup(
            completions_view(completions@),
            k,
        )) is None,
{
    let ghost cv: Seq<(usize, DispatchResultView)> = completions_view(completions@);
    let mut out: Vec<DispatchResult> = Vec::new();
    let mut k: usize = 0;
    while k < n
        invariant
            cv == completions_view(completions@),
            k <= n,
            out@.len() == k,
            forall|k2: int| 0 <= k2 < k ==> spec_lookup(cv, k2 as usize) == Some(
                (#[trigger] out@[k2])@,
            ),
            forall|k2: usize| k2 < k ==> (#[trigger] spec_lookup(cv, k2)) is Some,
        decreases n - k,
    {
        let mut idx: Option<usize> = None;
        let mut j: usize = 0;
        while j < completions.len()
            invariant
                cv == completions_view(completions@),
                j <= completions@.len(),
                idx is None ==> forall|j2: int| 0 <= j2 < j ==> (#[trigger] cv[j2]).0 != k,
                idx matches Some(x) ==> x < completions@.len() && cv[x as int].0 == k && forall|
                    j2: int,
                |
                    0 <= j2 < x ==> (#[trigger] cv[j2]).0 != k,
            decreases completions@.len() - j,
        {
            proof {
                assert(cv[j as int] == (completions@[j as int].0, completions@[j as int].1@));
            }
            if idx.is_none() && completions[j].0 == k {
                idx = Some(j);
            }
            j += 1;
        }
        match idx {
            Some(x) => {
                proof {
                    assert(cv[x as int] == (completions@[x as int].0, completions@[x as int].1@));
                    lemma_lookup_at(cv, k, x as int);
                }
                out.push(completions[x].1.clone());
            },
            None => {
                proof {
                    lemma_lookup_none(cv, k);
                }
                return None;
            },
        }
        k += 1;
    }
    Some(out)
}

/// Assembles the batch's outcomes in completion order: one outcome per
/// recorded completion, as they arrived.
pub fn collect_in_completion_order(completions: &Vec<(usize, DispatchResult)>) -> (r: Vec<
    DispatchResult,
>)
    ensures
        r@.len() == completions@.len(),
        forall|j: int| 0 <= j < completions@.len() ==> (#[trigger] r@[j])@ == completions@[j].1@,
{
    let mut out: Vec<DispatchResult> = Vec::new();
    let mut j: usize = 0;
    while j < completions.len()
        invariant
            j <= completions@.len(),
            out@.len() == j,
            forall|j2: int| 0 <= j2 < j ==> (#[trigger] out@[j2])@ == completions@[j2].1@,
        decreases completions@.len() - j,
    {
        out.push(completions[j].1.clone());
        j += 1;
    }
    out
}

/// A finished batch reports every item: when every input position has a
/// recorded completion — any mix of successes and failures — assembling in
/// input order succeeds and the output length equals the batch size.
pub proof fn lemma_complete_batch_reports_all(c: Seq<(usize, DispatchResultView)>, n: usize)
    requires
        forall|k: usize| #![trigger spec_lookup(c, k)] k < n ==> exists|j: int|
            0 <= j < c.len() && (#[trigger] c[j]).0 == k,
    ensures
        forall|k: usize| k < n ==> (#[trigger] spec_lookup(c, k)) is Some,
{
    assert forall|k: usize| k < n implies (#[trigger] spec_lookup(c, k)) is Some by {
        let j = choose|j: int| 0 <= j < c.len() && (#[trigger] c[j]).0 == k;
        lemma_lookup_some(c, k, j);
    }
}

proof fn lemma_lookup_some(c: Seq<(usize, DispatchResultView)>, k: usize, j: int)
    requires
        0 <= j < c.len(),
        c[j].0 == k,
    ensures
        spec_lookup(c, k) is Some,
    decreases j,
{
    if c[0].0 == k {
    } else {
        lemma_lookup_some(c.drop_first(), k, j - 1);
    }
}

} // verus!
