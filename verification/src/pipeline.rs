//! The bounded upload pipeline: which batch may start, which outcomes are
//! reported and in what order, and how a run ends.
//!
//! The pipeline does no work itself. Whoever drives it asks [`Pipeline::issue`]
//! for the next batch index while it hands one out, runs the work for that
//! index, and hands each outcome to [`Pipeline::complete`], which answers with
//! the indices that are now reported as sent.

use crate::error::UploadError;
use vstd::prelude::*;

verus! {

/// Where a run stands.
#[derive(Clone, Copy, Debug, PartialEq, Eq)]
pub enum Phase {
    /// Batches are still being admitted.
    Running,
    /// No batch is admitted any more; admitted ones are still at work.
    Draining,
    /// Every batch was sent and reported.
    Completed,
    /// A batch failed for good and no work is left.
    Aborted,
}

impl Phase {
    /// True for the two phases in which a run has ended.
    pub open spec fn is_terminal(self) -> bool {
        self == Phase::Completed || self == Phase::Aborted
    }

    /// True when a run in this phase may be in phase `next` after one more
    /// event: a run never goes back, and a run that has ended stays as it is.
    pub open spec fn may_be_followed_by(self, next: Phase) -> bool {
        match self {
            Phase::Running => next != Phase::Completed,
            Phase::Draining => next != Phase::Running,
            Phase::Completed => next == Phase::Completed,
            Phase::Aborted => next == Phase::Aborted,
        }
    }
}

/// The mathematical value of a [`Pipeline`].
pub struct PipelineView {
    /// The most batches that may be at work at once.
    pub limit: nat,
    /// The number of batches of the whole run.
    pub total: nat,
    /// The indices below this one have been admitted.
    pub issued: nat,
    /// The indices below this one have been reported as sent.
    pub reported: nat,
    /// The indices of the batches at work.
    pub in_flight: Set<nat>,
    /// The indices of the batches that were sent but wait to be reported,
    /// because an earlier batch is still at work.
    pub finished: Set<nat>,
    /// The first fatal error that was seen.
    pub failure: Option<UploadError>,
}

/// How many indices from `from` on, one after another and below `upto`,
/// are in `done`.
pub open spec fn ready_run(done: Set<nat>, from: nat, upto: nat) -> nat
    decreases upto - from,
{
    if from < upto && done.contains(from) {
        1 + ready_run(done, from + 1, upto)
    } else {
        0
    }
}

/// One thing that happens to a pipeline.
pub enum Event {
    /// The driver asks for the next batch.
    Issue,
    /// The work for `index` has ended with `outcome`.
    Complete { index: nat, outcome: Result<(), UploadError> },
}

impl PipelineView {
    /// The pipeline of a run before anything has happened.
    pub open spec fn initial(limit: nat, total: nat) -> PipelineView {
        PipelineView {
            limit,
            total,
            issued: 0,
            reported: 0,
            in_flight: Set::empty(),
            finished: Set::empty(),
            failure: None,
        }
    }

    /// What holds of a pipeline at every moment of a run.
    pub open spec fn wf(self) -> bool {
        &&& self.limit >= 1
        &&& self.reported <= self.issued <= self.total
        &&& self.in_flight.finite()
        &&& self.in_flight.len() <= self.limit
        &&& self.finished.finite()
        &&& forall|i: nat| #[trigger] self.in_flight.contains(i) ==> self.reported <= i < self.issued
        &&& forall|i: nat| #[trigger] self.finished.contains(i) ==> self.reported < i < self.issued
        &&& forall|i: nat| !(#[trigger] self.in_flight.contains(i) && self.finished.contains(i))
        &&& self.failure is None ==> forall|i: nat|
            self.reported <= i < self.issued ==> #[trigger] self.in_flight.contains(i)
                || self.finished.contains(i)
    }

    /// True when the next batch may start: no batch has failed, the run has
    /// batches left, and fewer than `limit` are at work.
    pub open spec fn can_issue(self) -> bool {
        &&& self.failure is None
        &&& self.issued < self.total
        &&& self.in_flight.len() < self.limit
    }

    /// The pipeline after the batch `issued` has started.
    pub open spec fn issue(self) -> PipelineView {
        PipelineView {
            issued: self.issued + 1,
            in_flight: self.in_flight.insert(self.issued),
            ..self
        }
    }

    /// The number of batches that become reported when the batch `index`
    /// is sent. Nothing is reported once a batch has failed.
    pub open spec fn newly_reported(self, index: nat, outcome: Result<(), UploadError>) -> nat {
        if self.failure is None && outcome is Ok {
            ready_run(self.finished.insert(index), self.reported, self.issued)
        } else {
            0
        }
    }

    /// The indices that are reported when the work for `index` ends with
    /// `outcome`: from `reported` upwards, one after another.
    pub open spec fn reports(self, index: nat, outcome: Result<(), UploadError>) -> Seq<nat> {
        Seq::new(self.newly_reported(index, outcome), |j: int| (self.reported + j) as nat)
    }

    /// The pipeline after the work for `index` has ended with `outcome`.
    ///
    /// The batch is no longer at work. After a failure nothing else changes.
    /// Else a fatal outcome becomes the failure of the run; a success is
    /// kept until every earlier batch is reported, and reported with those
    /// that waited for it.
    pub open spec fn complete(self, index: nat, outcome: Result<(), UploadError>) -> PipelineView {
        let in_flight = self.in_flight.remove(index);
        if self.failure is Some {
            PipelineView { in_flight, ..self }
        } else {
            match outcome {
                Err(error) => PipelineView { in_flight, failure: Some(error), ..self },
                Ok(_) => {
                    let reported = self.reported + self.newly_reported(index, outcome);
                    PipelineView {
                        in_flight,
                        reported,
                        finished: self.finished.insert(index).filter(|i: nat| i >= reported),
                        ..self
                    }
                },
            }
        }
    }

    /// Where the run stands.
    pub open spec fn phase(self) -> Phase {
        if self.failure is Some {
            if self.in_flight.len() > 0 {
                Phase::Draining
            } else {
                Phase::Aborted
            }
        } else if self.issued < self.total {
            Phase::Running
        } else if self.in_flight.len() > 0 {
            Phase::Draining
        } else {
            Phase::Completed
        }
    }

    /// The pipeline after `event`. An event that cannot happen, the start
    /// of a batch that may not start or the end of one that is not at work,
    /// changes nothing.
    pub open spec fn after(self, event: Event) -> PipelineView {
        match event {
            Event::Issue => if self.can_issue() {
                self.issue()
            } else {
                self
            },
            Event::Complete { index, outcome } => if self.in_flight.contains(index) {
                self.complete(index, outcome)
            } else {
                self
            },
        }
    }

    /// The indices that `event` reports.
    pub open spec fn reports_of(self, event: Event) -> Seq<nat> {
        match event {
            Event::Issue => Seq::empty(),
            Event::Complete { index, outcome } => if self.in_flight.contains(index) {
                self.reports(index, outcome)
            } else {
                Seq::empty()
            },
        }
    }

    /// The pipeline after `events`, in order.
    pub open spec fn after_all(self, events: Seq<Event>) -> PipelineView
        decreases events.len(),
    {
        if events.len() == 0 {
            self
        } else {
            self.after_all(events.drop_last()).after(events.last())
        }
    }

    /// Everything that `events` report, in the order it is reported.
    pub open spec fn reports_of_all(self, events: Seq<Event>) -> Seq<nat>
        decreases events.len(),
    {
        if events.len() == 0 {
            Seq::empty()
        } else {
            self.reports_of_all(events.drop_last()) + self.after_all(
                events.drop_last(),
            ).reports_of(events.last())
        }
    }
}

/// A run of ready indices stays below its bound, every index of it is
/// ready, and the index behind it is not.
pub proof fn lemma_ready_run(done: Set<nat>, from: nat, upto: nat)
    requires
        from <= upto,
    ensures
        from + ready_run(done, from, upto) <= upto,
        forall|i: nat| from <= i < from + ready_run(done, from, upto) ==> done.contains(i),
        from + ready_run(done, from, upto) < upto ==> !done.contains(
            from + ready_run(done, from, upto),
        ),
    decreases upto - from,
{
    if from < upto && done.contains(from) {
        lemma_ready_run(done, from + 1, upto);
    }
}

/// A pipeline is well formed before anything has happened.
pub proof fn lemma_initial_wf(limit: nat, total: nat)
    requires
        limit >= 1,
    ensures
        PipelineView::initial(limit, total).wf(),
{
}

/// Starting a batch that may start keeps the pipeline well formed.
pub proof fn lemma_issue_wf(v: PipelineView)
    requires
        v.wf(),
        v.can_issue(),
    ensures
        v.issue().wf(),
{
    let w = v.issue();
    assert forall|i: nat| w.reported <= i < w.issued implies #[trigger] w.in_flight.contains(i)
        || w.finished.contains(i) by {
        if i < v.issued {
            assert(v.in_flight.contains(i) || v.finished.contains(i));
        }
    }
}

/// The end of a batch at work keeps the pipeline well formed.
pub proof fn lemma_complete_wf(v: PipelineView, index: nat, outcome: Result<(), UploadError>)
    requires
        v.wf(),
        v.in_flight.contains(index),
    ensures
        v.complete(index, outcome).wf(),
{
    let w = v.complete(index, outcome);
    if v.failure is None && outcome is Ok {
        let done = v.finished.insert(index);
        lemma_ready_run(done, v.reported, v.issued);
        assert forall|i: nat| #[trigger] w.in_flight.contains(i) implies w.reported <= i
            < w.issued by {
            assert(v.in_flight.contains(i));
            if i < w.reported {
                assert(done.contains(i));
                assert(v.finished.contains(i));
            }
        }
        assert forall|i: nat| #[trigger] w.finished.contains(i) implies w.reported < i
            < w.issued by {
            assert(done.contains(i));
        }
        assert forall|i: nat| w.reported <= i < w.issued implies #[trigger] w.in_flight.contains(i)
            || w.finished.contains(i) by {
            assert(v.in_flight.contains(i) || v.finished.contains(i));
            if i != index && v.in_flight.contains(i) {
            } else {
                assert(done.contains(i));
            }
        }
    }
}

/// One event keeps the pipeline well formed.
pub proof fn lemma_after_wf(v: PipelineView, event: Event)
    requires
        v.wf(),
    ensures
        v.after(event).wf(),
        v.after(event).limit == v.limit,
        v.after(event).total == v.total,
{
    match event {
        Event::Issue => {
            if v.can_issue() {
                lemma_issue_wf(v);
            }
        },
        Event::Complete { index, outcome } => {
            if v.in_flight.contains(index) {
                lemma_complete_wf(v, index, outcome);
            }
        },
    }
}

/// The concurrency ceiling: whatever happens to a well-formed pipeline, and
/// in whatever order, never more than `limit` batches are at work.
pub proof fn lemma_never_above_limit(v: PipelineView, events: Seq<Event>)
    requires
        v.wf(),
    ensures
        v.after_all(events).wf(),
        v.after_all(events).limit == v.limit,
        v.after_all(events).total == v.total,
        v.after_all(events).in_flight.len() <= v.limit,
    decreases events.len(),
{
    if events.len() > 0 {
        lemma_never_above_limit(v, events.drop_last());
        lemma_after_wf(v.after_all(events.drop_last()), events.last());
    }
}

/// Reporting order: whatever the order in which batches end, the indices
/// reported over a run are the next ones not yet reported, one after
/// another, with none left out and none twice.
pub proof fn lemma_reports_in_order(v: PipelineView, events: Seq<Event>)
    requires
        v.wf(),
    ensures
        v.reported <= v.after_all(events).reported,
        v.reports_of_all(events) == Seq::new(
            (v.after_all(events).reported - v.reported) as nat,
            |j: int| (v.reported + j) as nat,
        ),
    decreases events.len(),
{
    if events.len() > 0 {
        let before = v.after_all(events.drop_last());
        lemma_reports_in_order(v, events.drop_last());
        lemma_never_above_limit(v, events.drop_last());
        let after = before.after(events.last());
        assert(v.reports_of_all(events) =~= Seq::new(
            (after.reported - v.reported) as nat,
            |j: int| (v.reported + j) as nat,
        ));
    } else {
        assert(v.reports_of_all(events) =~= Seq::new(0, |j: int| (v.reported + j) as nat));
    }
}

/// From the start of a run, what has been reported is always `0, 1, 2, ..`
/// up to the number of batches reported.
pub proof fn lemma_reports_count_up(limit: nat, total: nat, events: Seq<Event>)
    requires
        limit >= 1,
    ensures
        PipelineView::initial(limit, total).reports_of_all(events) == Seq::new(
            PipelineView::initial(limit, total).after_all(events).reported,
            |j: int| j as nat,
        ),
{
    let v = PipelineView::initial(limit, total);
    lemma_reports_in_order(v, events);
    assert(v.reports_of_all(events) =~= Seq::new(v.after_all(events).reported, |j: int| j as nat));
}

/// Fail-fast: once a batch has failed for good, no further batch starts,
/// nothing more is reported, and the failure stays the one first seen.
pub proof fn lemma_fail_fast(v: PipelineView, events: Seq<Event>)
    requires
        v.failure is Some,
    ensures
        v.after_all(events).failure == v.failure,
        v.after_all(events).issued == v.issued,
        v.after_all(events).reported == v.reported,
        v.reports_of_all(events) == Seq::<nat>::empty(),
    decreases events.len(),
{
    if events.len() > 0 {
        lemma_fail_fast(v, events.drop_last());
        let before = v.after_all(events.drop_last());
        assert(before.reports_of(events.last()) =~= Seq::<nat>::empty());
    }
}

/// The phases of a run follow one another in one direction: from running
/// to draining to completed or aborted. Once a run has ended, nothing that
/// happens changes it.
pub proof fn lemma_phases_advance(v: PipelineView, event: Event)
    requires
        v.wf(),
    ensures
        v.phase().may_be_followed_by(v.after(event).phase()),
        v.phase().is_terminal() ==> v.after(event) == v,
{
    lemma_after_wf(v, event);
    let w = v.after(event);
    match event {
        Event::Issue => {
            if v.can_issue() {
                assert(w.in_flight.contains(v.issued));
                assert(w.in_flight.len() > 0);
            }
        },
        Event::Complete { index, outcome } => {
            if v.in_flight.contains(index) {
                assert(v.in_flight.len() > 0);
            }
        },
    }
}

/// A run that is aborted has seen a fatal error, and a run that has seen
/// one is draining or aborted.
pub proof fn lemma_aborted_has_failed(v: PipelineView)
    ensures
        v.phase() == Phase::Aborted ==> v.failure is Some,
        v.failure is Some ==> v.phase() == Phase::Draining || v.phase() == Phase::Aborted,
{
}

/// A run that is completed has sent and reported every batch, and none
/// has failed.
pub proof fn lemma_completed_is_total(v: PipelineView)
    requires
        v.wf(),
        v.phase() == Phase::Completed,
    ensures
        v.reported == v.total,
        v.failure is None,
        v.in_flight.is_empty(),
{
    assert(v.in_flight.len() == 0);
    if v.reported < v.issued {
        assert(v.in_flight.contains(v.reported) || v.finished.contains(v.reported));
    }
}

/// The set of the indices that a vector holds.
pub open spec fn index_set(s: Seq<usize>) -> Set<nat> {
    Set::new(|i: nat| exists|k: int| 0 <= k < s.len() && #[trigger] s[k] as nat == i)
}

/// Pushing an index onto a vector adds it to the set of its indices.
proof fn lemma_index_set_push(s: Seq<usize>, x: usize)
    ensures
        index_set(s.push(x)) == index_set(s).insert(x as nat),
{
    let t = s.push(x);
    assert forall|i: nat| index_set(t).contains(i) == index_set(s).insert(x as nat).contains(
        i,
    ) by {
        if index_set(t).contains(i) {
            let k = choose|k: int| 0 <= k < t.len() && #[trigger] t[k] as nat == i;
            if k < s.len() {
                assert(s[k] as nat == i);
            }
        }
        if index_set(s).contains(i) {
            let k = choose|k: int| 0 <= k < s.len() && #[trigger] s[k] as nat == i;
            assert(t[k] as nat == i);
        }
        if i == x as nat {
            assert(t[s.len() as int] as nat == i);
        }
    }
    assert(index_set(t) =~= index_set(s).insert(x as nat));
}

/// A vector that holds no index twice holds as many indices as it is long.
proof fn lemma_index_set_len(s: Seq<usize>)
    requires
        s.no_duplicates(),
    ensures
        index_set(s).finite(),
        index_set(s).len() == s.len(),
    decreases s.len(),
{
    if s.len() == 0 {
        assert(index_set(s) =~= Set::<nat>::empty());
    } else {
        let rest = s.drop_last();
        lemma_index_set_len(rest);
        lemma_index_set_push(rest, s.last());
        assert(rest.push(s.last()) =~= s);
        if index_set(rest).contains(s.last() as nat) {
            let k = choose|k: int| 0 <= k < rest.len() && #[trigger] rest[k] as nat == s.last() as nat;
            assert(s[k] == s[s.len() - 1]);
        }
    }
}

/// Taking an index out of a vector that holds none twice, by moving the
/// last one into its place, takes it out of the set of its indices and
/// leaves the vector without an index held twice.
proof fn lemma_index_set_swap_remove(s: Seq<usize>, at: int)
    requires
        s.no_duplicates(),
        0 <= at < s.len(),
    ensures
        s.update(at, s.last()).drop_last().no_duplicates(),
        index_set(s.update(at, s.last()).drop_last()) == index_set(s).remove(s[at] as nat),
{
    let t = s.update(at, s.last()).drop_last();
    let last = s.len() - 1;
    assert forall|i: int, j: int| 0 <= i < t.len() && 0 <= j < t.len() && i != j implies t[i]
        != t[j] by {
        let si = if i == at {
            last
        } else {
            i
        };
        let sj = if j == at {
            last
        } else {
            j
        };
        assert(t[i] == s[si] && t[j] == s[sj] && si != sj);
    }
    assert forall|i: nat| index_set(t).contains(i) == index_set(s).remove(s[at] as nat).contains(
        i,
    ) by {
        if index_set(t).contains(i) {
            let k = choose|k: int| 0 <= k < t.len() && #[trigger] t[k] as nat == i;
            let sk = if k == at {
                last
            } else {
                k
            };
            assert(s[sk] as nat == i);
            assert(sk != at);
        }
        if index_set(s).contains(i) && i != s[at] as nat {
            let k = choose|k: int| 0 <= k < s.len() && #[trigger] s[k] as nat == i;
            if k == last {
                assert(t[at] as nat == i);
            } else {
                assert(t[k] as nat == i);
            }
        }
    }
    assert(index_set(t) =~= index_set(s).remove(s[at] as nat));
}

/// The position of `x` in `v`, where it occurs.
fn position(v: &Vec<usize>, x: usize) -> (r: Option<usize>)
    ensures
        r matches Some(k) ==> k < v.len() && v@[k as int] == x,
        r is None ==> !index_set(v@).contains(x as nat),
{
    let mut k: usize = 0;
    while k < v.len()
        invariant
            k <= v.len(),
            forall|j: int| 0 <= j < k ==> v@[j] != x,
        decreases v.len() - k,
    {
        if v[k] == x {
            return Some(k);
        }
        k += 1;
    }
    None
}

/// A run of ready indices is as long as the stretch of ready indices
/// that ends before an index that is not ready, or at the bound.
proof fn lemma_ready_run_is(done: Set<nat>, from: nat, upto: nat, k: nat)
    requires
        from + k <= upto,
        forall|i: nat| from <= i < from + k ==> done.contains(i),
        from + k < upto ==> !done.contains(from + k),
    ensures
        ready_run(done, from, upto) == k,
    decreases k,
{
    if k > 0 {
        lemma_ready_run_is(done, from + 1, upto, (k - 1) as nat);
    }
}

/// The indices of a vector as numbers.
pub open spec fn indices(s: Seq<usize>) -> Seq<nat> {
    s.map_values(|i: usize| i as nat)
}

/// The number of batches of a run: the number given, or, where none is
/// given, as many as can be counted.
pub open spec fn total_of(batches: Option<usize>) -> nat {
    match batches {
        Some(n) => n as nat,
        None => usize::MAX as nat,
    }
}

/// The bookkeeping of one run: which batches have started, which are at
/// work, which have been sent and reported, and whether one has failed.
#[derive(Debug)]
pub struct Pipeline {
    limit: usize,
    total: usize,
    issued: usize,
    reported: usize,
    in_flight: Vec<usize>,
    finished: Vec<usize>,
    failure: Option<UploadError>,
}

impl View for Pipeline {
    type V = PipelineView;

    closed spec fn view(&self) -> PipelineView {
        PipelineView {
            limit: self.limit as nat,
            total: self.total as nat,
            issued: self.issued as nat,
            reported: self.reported as nat,
            in_flight: index_set(self.in_flight@),
            finished: index_set(self.finished@),
            failure: self.failure,
        }
    }
}

impl Pipeline {
    /// What holds of the representation: no index is held twice.
    pub closed spec fn inv(&self) -> bool {
        &&& self.in_flight@.no_duplicates()
        &&& self.finished@.no_duplicates()
    }

    /// What holds of a pipeline at every moment of a run.
    pub open spec fn wf(&self) -> bool {
        &&& self@.wf()
        &&& self.inv()
    }

    /// The pipeline of a run of `batches` batches, or of a run without end
    /// where none is given, with at most `limit` batches at work at once.
    /// There is none for a limit of zero.
    pub fn new(limit: usize, batches: Option<usize>) -> (r: Option<Pipeline>)
        ensures
            limit == 0 ==> r is None,
            limit >= 1 ==> (r matches Some(p) && p.wf() && p@ == PipelineView::initial(
                limit as nat,
                total_of(batches),
            )),
    {
        if limit == 0 {
            return None;
        }
        let total: usize = match batches {
            Some(n) => n,
            None => usize::MAX,
        };
        let p = Pipeline {
            limit,
            total,
            issued: 0,
            reported: 0,
            in_flight: Vec::new(),
            finished: Vec::new(),
            failure: None,
        };
        proof {
            assert(index_set(p.in_flight@) =~= Set::<nat>::empty());
            assert(index_set(p.finished@) =~= Set::<nat>::empty());
        }
        Some(p)
    }

    /// Starts the next batch, if one may start: hands out its index and
    /// counts it as at work. Hands out nothing, and changes nothing, once a
    /// batch has failed, when the run has no batch left, or while `limit`
    /// batches are at work.
    pub fn issue(&mut self) -> (r: Option<usize>)
        requires
            old(self).wf(),
        ensures
            final(self).wf(),
            old(self)@.can_issue() ==> r == Some(old(self)@.issued as usize) && final(self)@ == old(
                self,
            )@.issue(),
            !old(self)@.can_issue() ==> r is None && final(self)@ == old(self)@,
    {
        proof {
            lemma_index_set_len(self.in_flight@);
        }
        if self.failure.is_some() || self.issued >= self.total || self.in_flight.len()
            >= self.limit {
            return None;
        }
        let index: usize = self.issued;
        proof {
            lemma_index_set_push(self.in_flight@, index);
            lemma_issue_wf(self@);
            assert forall|j: int| 0 <= j < self.in_flight@.len() implies self.in_flight@[j]
                != index by {
                assert(index_set(self.in_flight@).contains(self.in_flight@[j] as nat));
            }
        }
        self.in_flight.push(index);
        self.issued = index + 1;
        Some(index)
    }

    /// Records that the work for `index` has ended with `outcome`, and
    /// hands out the indices that are thereby reported as sent, in order.
    ///
    /// For an index that is not at work it hands out nothing and changes
    /// nothing. Else the batch is no longer at work, and:
    /// after a failure, nothing is reported and the outcome is dropped;
    /// a fatal outcome becomes the failure of the run;
    /// a success is reported as soon as every earlier batch is, together
    /// with the later ones that waited for it.
    pub fn complete(&mut self, index: usize, outcome: Result<(), UploadError>) -> (r: Option<
        Vec<usize>,
    >)
        requires
            old(self).wf(),
        ensures
            final(self).wf(),
            !old(self)@.in_flight.contains(index as nat) ==> r is None && final(self)@ == old(
                self,
            )@,
            old(self)@.in_flight.contains(index as nat) ==> (r matches Some(reports) && indices(
                reports@,
            ) == old(self)@.reports(index as nat, outcome) && final(self)@ == old(self)@.complete(
                index as nat,
                outcome,
            )),
    {
        let at: usize = match position(&self.in_flight, index) {
            Some(at) => at,
            None => {
                return None;
            },
        };
        proof {
            assert(index_set(self.in_flight@).contains(index as nat));
            lemma_index_set_swap_remove(self.in_flight@, at as int);
            lemma_complete_wf(self@, index as nat, outcome);
        }
        self.in_flight.swap_remove(at);
        let ghost at_work = self.in_flight@;
        if self.failure.is_some() {
            let reports: Vec<usize> = Vec::new();
            proof {
                assert(indices(reports@) =~= old(self)@.reports(index as nat, outcome));
            }
            return Some(reports);
        }
        match outcome {
            Err(error) => {
                self.failure = Some(error);
                let reports: Vec<usize> = Vec::new();
                proof {
                    assert(indices(reports@) =~= old(self)@.reports(index as nat, outcome));
                }
                Some(reports)
            },
            Ok(_) => {
                proof {
                    lemma_index_set_push(self.finished@, index);
                    assert forall|j: int| 0 <= j < self.finished@.len() implies self.finished@[j]
                        != index by {
                        assert(index_set(self.finished@).contains(self.finished@[j] as nat));
                    }
                }
                self.finished.push(index);
                let ghost done = index_set(self.finished@);
                let ghost first = self.reported as nat;
                let mut reports: Vec<usize> = Vec::new();
                let mut next: Option<usize> = position(&self.finished, self.reported);
                while next.is_some()
                    invariant
                        self.limit == old(self).limit,
                        self.total == old(self).total,
                        self.issued == old(self).issued,
                        self.failure == old(self).failure,
                        self.in_flight@ == at_work,
                        self.finished@.no_duplicates(),
                        first == old(self).reported,
                        first <= self.reported <= self.issued,
                        forall|i: nat| #[trigger] done.contains(i) ==> first <= i < self.issued,
                        forall|i: nat| first <= i < self.reported ==> done.contains(i),
                        forall|i: nat|
                            #[trigger] index_set(self.finished@).contains(i) <==> done.contains(i)
                                && i >= self.reported,
                        reports@.len() == self.reported - first,
                        forall|j: int| 0 <= j < reports@.len() ==> reports@[j] == first + j,
                        next matches Some(k) ==> k < self.finished.len() && self.finished@[k as int]
                            == self.reported,
                        next is None ==> !index_set(self.finished@).contains(self.reported as nat),
                    decreases self.issued - self.reported,
                {
                    let k: usize = next.unwrap();
                    proof {
                        lemma_index_set_swap_remove(self.finished@, k as int);
                        assert(index_set(self.finished@).contains(self.reported as nat));
                    }
                    self.finished.swap_remove(k);
                    reports.push(self.reported);
                    self.reported = self.reported + 1;
                    next = position(&self.finished, self.reported);
                }
                proof {
                    let k = (self.reported - first) as nat;
                    lemma_ready_run_is(done, first, self.issued as nat, k);
                    assert(done == old(self)@.finished.insert(index as nat));
                    assert(indices(reports@) =~= old(self)@.reports(index as nat, outcome));
                    assert(index_set(self.finished@) =~= done.filter(
                        |i: nat| i >= self.reported as nat,
                    ));
                    assert(self@ == old(self)@.complete(index as nat, outcome));
                }
                Some(reports)
            },
        }
    }

    /// Where the run stands.
    pub fn phase(&self) -> (phase: Phase)
        requires
            self.wf(),
        ensures
            phase == self@.phase(),
    {
        proof {
            lemma_index_set_len(self.in_flight@);
        }
        if self.failure.is_some() {
            if self.in_flight.len() > 0 {
                Phase::Draining
            } else {
                Phase::Aborted
            }
        } else if self.issued < self.total {
            Phase::Running
        } else if self.in_flight.len() > 0 {
            Phase::Draining
        } else {
            Phase::Completed
        }
    }

    /// The first fatal error that was seen, if any.
    pub fn failure(&self) -> (failure: Option<&UploadError>)
        ensures
            failure matches Some(error) ==> self@.failure == Some(*error),
            failure is None ==> self@.failure is None,
    {
        self.failure.as_ref()
    }

    /// The number of batches reported as sent.
    pub fn reported(&self) -> (n: usize)
        ensures
            n == self@.reported,
    {
        self.reported
    }

    /// The number of batches at work.
    pub fn in_flight(&self) -> (n: usize)
        requires
            self.wf(),
        ensures
            n == self@.in_flight.len(),
            n <= self@.limit,
    {
        proof {
            lemma_index_set_len(self.in_flight@);
        }
        self.in_flight.len()
    }

    /// The most batches that may be at work at once.
    pub fn limit(&self) -> (n: usize)
        ensures
            n == self@.limit,
    {
        self.limit
    }
}

} // verus!
