//! The queue age sweeper.
//!
//! A [`Sweeper`] walks a list of queue identifiers. For each identifier that
//! carries the pipeline's naming marker it asks the driver to measure the
//! queue's age, and when the measured age exceeds [`crate::MAX_QUEUE_AGE_SECONDS`]
//! it asks the driver to delete the queue. A failed age measurement aborts the
//! whole sweep. The ghost logs record every age query and every deletion the
//! machine has requested, so the sweep's guarantees are stated over complete
//! traces.

use vstd::prelude::*;

use crate::queue_name_marker;
use crate::text::{contains_seq, str_contains};
use crate::trace::{
    lemma_occurrences_contains, lemma_selected_below_increasing, lemma_selected_below_member,
    lemma_selected_below_skip, lemma_strictly_increasing_occurrences, occurrences, selected_below,
    strictly_increasing,
};
use crate::MAX_QUEUE_AGE_SECONDS;

verus! {

/// A queue name is subject to sweeping when it carries the pipeline marker.
pub open spec fn sweepable(name: Seq<char>) -> bool {
    contains_seq(name, "requestUpdates"@)
}

/// Sweepability of the queue at a given index of the list.
pub open spec fn sweepable_pred(queues: Seq<String>) -> spec_fn(int) -> bool {
    |i: int| sweepable(queues[i]@)
}

/// The indices of the marked queues among the first `n`, in list order.
pub open spec fn sweep_targets(queues: Seq<String>, n: int) -> Seq<int> {
    selected_below(n, sweepable_pred(queues))
}

/// Of the queried queues, those whose measured age exceeded the threshold,
/// in query order. `queried` and `ages` are aligned logs.
pub open spec fn overdue(queried: Seq<int>, ages: Seq<i64>) -> Seq<int>
    decreases queried.len(),
{
    if queried.len() == 0 || ages.len() == 0 {
        Seq::empty()
    } else if ages.last() > MAX_QUEUE_AGE_SECONDS {
        overdue(queried.drop_last(), ages.drop_last()).push(queried.last())
    } else {
        overdue(queried.drop_last(), ages.drop_last())
    }
}

/// What the sweeper asks its driver to do next.
#[derive(Clone, Copy, Debug, PartialEq, Eq, Structural)]
pub enum SweepCommand {
    /// Measure the age, in seconds, of the queue at this index.
    QueryAge { index: usize },
    /// Delete the queue at this index.
    DeleteQueue { index: usize },
    /// Every queue has been handled; the sweep is complete.
    Finished,
    /// An age measurement failed; the sweep stops here.
    Aborted,
}

enum SweepPhase {
    Probe,
    Remove,
    Done,
    Fail,
}

/// The sweep state machine.
pub struct Sweeper {
    queues: Vec<String>,
    pos: usize,
    phase: SweepPhase,
    queried: Ghost<Seq<int>>,
    ages: Ghost<Seq<i64>>,
    deleted: Ghost<Seq<int>>,
}

impl Sweeper {
    /// The queue identifiers the sweep was started with.
    pub closed spec fn queue_list(self) -> Seq<String> {
        self.queues@
    }

    /// The index the machine is currently working at.
    pub closed spec fn cursor(self) -> int {
        self.pos as int
    }

    /// The machine waits for the age of the queue at the cursor.
    pub closed spec fn awaiting_age(self) -> bool {
        self.phase is Probe
    }

    /// The machine waits for the deletion of the queue at the cursor.
    pub closed spec fn awaiting_delete(self) -> bool {
        self.phase is Remove
    }

    /// The sweep has handled every queue.
    pub closed spec fn is_done(self) -> bool {
        self.phase is Done
    }

    /// The sweep stopped after a failed age measurement.
    pub closed spec fn is_failed(self) -> bool {
        self.phase is Fail
    }

    /// Indices whose age the machine has received, in query order.
    pub closed spec fn queried_log(self) -> Seq<int> {
        self.queried@
    }

    /// The ages received, aligned with `queried_log`.
    pub closed spec fn age_log(self) -> Seq<i64> {
        self.ages@
    }

    /// Indices whose deletion the driver has confirmed, in order.
    pub closed spec fn deleted_log(self) -> Seq<int> {
        self.deleted@
    }

    /// The machine's invariant: the logs are exactly what the walk up to the
    /// cursor dictates.
    pub closed spec fn wf(self) -> bool {
        let qs = self.queues@;
        let n = qs.len() as int;
        let watermark = if self.phase is Remove {
            self.pos as int + 1
        } else {
            self.pos as int
        };
        &&& self.pos as int <= n
        &&& (self.phase is Probe ==> self.pos < n && sweepable(qs[self.pos as int]@))
        &&& (self.phase is Remove ==> self.pos < n && sweepable(qs[self.pos as int]@))
        &&& (self.phase is Done ==> self.pos == n)
        &&& self.ages@.len() == self.queried@.len()
        &&& self.queried@ == sweep_targets(qs, watermark)
        &&& if self.phase is Remove {
            overdue(self.queried@, self.ages@) == self.deleted@.push(self.pos as int)
        } else {
            self.deleted@ == overdue(self.queried@, self.ages@)
        }
    }

    /// Start a sweep over the given queue identifiers.
    pub fn new(queues: Vec<String>) -> (s: Sweeper)
        ensures
            s.wf(),
            s.queue_list() == queues@,
            s.queried_log() == Seq::<int>::empty(),
            s.age_log() == Seq::<i64>::empty(),
            s.deleted_log() == Seq::<int>::empty(),
            !s.is_failed(),
    {
        let pos = seek_sweepable(&queues, 0);
        let phase = if pos < queues.len() {
            SweepPhase::Probe
        } else {
            SweepPhase::Done
        };
        proof {
            lemma_targets_skip(queues@, 0, pos as int);
        }
        Sweeper {
            queues,
            pos,
            phase,
            queried: Ghost(Seq::empty()),
            ages: Ghost(Seq::empty()),
            deleted: Ghost(Seq::empty()),
        }
    }

    /// How many queue identifiers the sweep covers.
    pub fn queue_count(&self) -> (n: usize)
        ensures
            n == self.queue_list().len(),
    {
        self.queues.len()
    }

    /// The queue identifier at an index.
    pub fn queue_name(&self, index: usize) -> (name: &String)
        requires
            index < self.queue_list().len(),
        ensures
            name == self.queue_list()[index as int],
    {
        &self.queues[index]
    }

    /// What the driver must do next. Age queries are issued only for marked
    /// queues; a deletion is issued only for a marked queue whose measured
    /// age exceeded the threshold.
    pub fn next_command(&self) -> (c: SweepCommand)
        requires
            self.wf(),
        ensures
            self.awaiting_age() ==> (c matches SweepCommand::QueryAge { index } && index as int
                == self.cursor() && index < self.queue_list().len() && sweepable(
                self.queue_list()[index as int]@,
            )),
            self.awaiting_delete() ==> (c matches SweepCommand::DeleteQueue { index } && index
                as int == self.cursor() && index < self.queue_list().len() && sweepable(
                self.queue_list()[index as int]@,
            )),
            self.awaiting_delete() ==> exists|k: int|
                0 <= k < self.queried_log().len() && self.queried_log()[k] == self.cursor()
                    && self.age_log()[k] > MAX_QUEUE_AGE_SECONDS,
            self.is_done() ==> c == SweepCommand::Finished,
            self.is_failed() ==> c == SweepCommand::Aborted,
            (c matches SweepCommand::QueryAge { index }) ==> self.awaiting_age(),
            (c matches SweepCommand::DeleteQueue { index }) ==> self.awaiting_delete(),
            c == SweepCommand::Finished ==> self.is_done(),
            c == SweepCommand::Aborted ==> self.is_failed(),
    {
        proof {
            if self.phase is Remove {
                let q = self.queried@;
                let a = self.ages@;
                assert(overdue(q, a)[overdue(q, a).len() - 1] == self.pos as int);
                assert(overdue(q, a).contains(self.pos as int));
                lemma_overdue_member(q, a, self.pos as int);
                let k = choose|k: int|
                    0 <= k < q.len() && q[k] == self.pos as int && a[k] > MAX_QUEUE_AGE_SECONDS;
                assert(self.queried_log()[k] == self.cursor() && self.age_log()[k]
                    > MAX_QUEUE_AGE_SECONDS);
            }
        }
        match self.phase {
            SweepPhase::Probe => SweepCommand::QueryAge { index: self.pos },
            SweepPhase::Remove => SweepCommand::DeleteQueue { index: self.pos },
            SweepPhase::Done => SweepCommand::Finished,
            SweepPhase::Fail => SweepCommand::Aborted,
        }
    }

    /// The driver reports the measured age of the queue at the cursor.
    pub fn age_received(&mut self, age: i64)
        requires
            old(self).wf(),
            old(self).awaiting_age(),
        ensures
            final(self).wf(),
            final(self).queue_list() == old(self).queue_list(),
            final(self).queried_log() == old(self).queried_log().push(old(self).cursor()),
            final(self).age_log() == old(self).age_log().push(age),
            final(self).deleted_log() == old(self).deleted_log(),
            !final(self).is_failed(),
            age > MAX_QUEUE_AGE_SECONDS ==> final(self).awaiting_delete() && final(self).cursor()
                == old(self).cursor(),
            age <= MAX_QUEUE_AGE_SECONDS ==> !final(self).awaiting_delete() && final(self).cursor()
                > old(self).cursor(),
    {
        let ghost old_queried = self.queried@;
        let ghost old_ages = self.ages@;
        let len = self.queues.len();
        self.queried = Ghost(self.queried@.push(self.pos as int));
        self.ages = Ghost(self.ages@.push(age));
        proof {
            lemma_targets_step(self.queues@, self.pos as int);
            assert(self.queried@.drop_last() =~= old_queried);
            assert(self.ages@.drop_last() =~= old_ages);
        }
        if age > MAX_QUEUE_AGE_SECONDS {
            self.phase = SweepPhase::Remove;
        } else {
            let next = seek_sweepable(&self.queues, self.pos + 1);
            proof {
                lemma_targets_skip(self.queues@, self.pos as int + 1, next as int);
            }
            self.pos = next;
            self.phase = if next < len {
                SweepPhase::Probe
            } else {
                SweepPhase::Done
            };
        }
    }

    /// The driver reports that the age of the queue at the cursor could not
    /// be measured. The sweep stops; nothing further will be requested.
    pub fn age_failed(&mut self)
        requires
            old(self).wf(),
            old(self).awaiting_age(),
        ensures
            final(self).wf(),
            final(self).is_failed(),
            final(self).queue_list() == old(self).queue_list(),
            final(self).queried_log() == old(self).queried_log(),
            final(self).age_log() == old(self).age_log(),
            final(self).deleted_log() == old(self).deleted_log(),
            final(self).cursor() == old(self).cursor(),
    {
        self.phase = SweepPhase::Fail;
    }

    /// The driver reports that the queue at the cursor was deleted.
    pub fn delete_confirmed(&mut self)
        requires
            old(self).wf(),
            old(self).awaiting_delete(),
        ensures
            final(self).wf(),
            final(self).queue_list() == old(self).queue_list(),
            final(self).queried_log() == old(self).queried_log(),
            final(self).age_log() == old(self).age_log(),
            final(self).deleted_log() == old(self).deleted_log().push(old(self).cursor()),
            !final(self).is_failed(),
            final(self).cursor() > old(self).cursor(),
    {
        let len = self.queues.len();
        self.deleted = Ghost(self.deleted@.push(self.pos as int));
        let next = seek_sweepable(&self.queues, self.pos + 1);
        proof {
            lemma_targets_skip(self.queues@, self.pos as int + 1, next as int);
        }
        self.pos = next;
        self.phase = if next < len {
            SweepPhase::Probe
        } else {
            SweepPhase::Done
        };
    }
}

/// The first index at or after `start` whose queue name carries the marker.
fn seek_sweepable(queues: &Vec<String>, start: usize) -> (r: usize)
    requires
        start <= queues@.len(),
    ensures
        start <= r <= queues@.len(),
        forall|k: int| start <= k < r ==> !sweepable(queues@[k]@),
        r < queues@.len() ==> sweepable(queues@[r as int]@),
{
    let mut i = start;
    while i < queues.len()
        invariant
            start <= i <= queues@.len(),
            forall|k: int| start <= k < i ==> !sweepable(queues@[k]@),
        decreases queues@.len() - i,
    {
        if str_contains(queues[i].as_str(), queue_name_marker()) {
            return i;
        }
        i += 1;
    }
    i
}

/// Where no queue in `[a, b)` is marked, the targets below `b` are those below `a`.
proof fn lemma_targets_skip(queues: Seq<String>, a: int, b: int)
    requires
        0 <= a <= b,
        forall|k: int| a <= k < b ==> !sweepable(queues[k]@),
    ensures
        sweep_targets(queues, b) == sweep_targets(queues, a),
{
    let p = sweepable_pred(queues);
    assert forall|k: int| a <= k < b implies !#[trigger] p(k) by {
        assert(!sweepable(queues[k]@));
    }
    lemma_selected_below_skip(a, b, p);
}

/// A marked queue at `n` extends the targets below `n` by `n`.
proof fn lemma_targets_step(queues: Seq<String>, n: int)
    requires
        0 <= n,
        sweepable(queues[n]@),
    ensures
        sweep_targets(queues, n + 1) == sweep_targets(queues, n).push(n),
{
    assert(sweepable_pred(queues)(n));
}

/// Membership in the targets is exactly being a marked index in range.
proof fn lemma_targets_member(queues: Seq<String>, n: int, j: int)
    ensures
        sweep_targets(queues, n).contains(j) <==> (0 <= j < n && sweepable(queues[j]@)),
{
    lemma_selected_below_member(n, sweepable_pred(queues), j);
    assert(sweepable_pred(queues)(j) == sweepable(queues[j]@));
}

/// An overdue index was queried, with an age over the threshold.
proof fn lemma_overdue_member(queried: Seq<int>, ages: Seq<i64>, x: int)
    requires
        queried.len() == ages.len(),
        overdue(queried, ages).contains(x),
    ensures
        exists|k: int|
            0 <= k < queried.len() && queried[k] == x && ages[k] > MAX_QUEUE_AGE_SECONDS,
    decreases queried.len(),
{
    let d = overdue(queried, ages);
    let q = queried.drop_last();
    let a = ages.drop_last();
    if ages.last() > MAX_QUEUE_AGE_SECONDS {
        let k = choose|k: int| 0 <= k < d.len() && d[k] == x;
        if k < overdue(q, a).len() {
            assert(overdue(q, a)[k] == x);
            lemma_overdue_member(q, a, x);
            let k2 = choose|k2: int|
                0 <= k2 < q.len() && q[k2] == x && a[k2] > MAX_QUEUE_AGE_SECONDS;
            assert(queried[k2] == x && ages[k2] > MAX_QUEUE_AGE_SECONDS);
        } else {
            assert(x == queried.last());
            assert(queried[queried.len() - 1] == x);
        }
    } else {
        lemma_overdue_member(q, a, x);
        let k2 = choose|k2: int| 0 <= k2 < q.len() && q[k2] == x && a[k2] > MAX_QUEUE_AGE_SECONDS;
        assert(queried[k2] == x && ages[k2] > MAX_QUEUE_AGE_SECONDS);
    }
}

/// Every queried index whose age was over the threshold is overdue.
proof fn lemma_overdue_complete(queried: Seq<int>, ages: Seq<i64>, k: int)
    requires
        queried.len() == ages.len(),
        0 <= k < queried.len(),
        ages[k] > MAX_QUEUE_AGE_SECONDS,
    ensures
        overdue(queried, ages).contains(queried[k]),
    decreases queried.len(),
{
    let d = overdue(queried, ages);
    let q = queried.drop_last();
    let a = ages.drop_last();
    if k == queried.len() - 1 {
        assert(d[d.len() - 1] == queried[k]);
    } else {
        lemma_overdue_complete(q, a, k);
        let i = choose|i: int| 0 <= i < overdue(q, a).len() && overdue(q, a)[i] == q[k];
        assert(d[i] == queried[k]);
    }
}

/// Overdue indices ascend strictly when the query log does.
proof fn lemma_overdue_increasing(queried: Seq<int>, ages: Seq<i64>)
    requires
        queried.len() == ages.len(),
        strictly_increasing(queried),
    ensures
        strictly_increasing(overdue(queried, ages)),
    decreases queried.len(),
{
    if queried.len() > 0 {
        let q = queried.drop_last();
        let a = ages.drop_last();
        assert(strictly_increasing(q)) by {
            assert forall|i: int, j: int| 0 <= i < j < q.len() implies q[i] < q[j] by {
                assert(q[i] == queried[i] && q[j] == queried[j]);
            }
        }
        lemma_overdue_increasing(q, a);
        if ages.last() > MAX_QUEUE_AGE_SECONDS {
            let d = overdue(q, a).push(queried.last());
            assert forall|i: int, j: int| 0 <= i < j < d.len() implies d[i] < d[j] by {
                if j < overdue(q, a).len() {
                    assert(d[i] == overdue(q, a)[i] && d[j] == overdue(q, a)[j]);
                } else {
                    assert(d[i] == overdue(q, a)[i]);
                    assert(overdue(q, a).contains(overdue(q, a)[i]));
                    lemma_overdue_member(q, a, d[i]);
                    let k = choose|k: int|
                        0 <= k < q.len() && q[k] == d[i] && a[k] > MAX_QUEUE_AGE_SECONDS;
                    assert(queried[k] == d[i]);
                    assert(queried[k] < queried[queried.len() - 1]);
                }
            }
        }
    }
}

/// Only queues whose name carries the marker are ever queried for their age
/// or deleted, in any reachable state of a sweep.
pub proof fn lemma_sweep_touches_only_marked(s: &Sweeper, j: int)
    requires
        s.wf(),
        s.queried_log().contains(j) || s.deleted_log().contains(j),
    ensures
        0 <= j < s.queue_list().len(),
        sweepable(s.queue_list()[j]@),
{
    let qs = s.queue_list();
    if s.deleted_log().contains(j) {
        let q = s.queried_log();
        let a = s.age_log();
        assert(overdue(q, a).contains(j)) by {
            if s.awaiting_delete() {
                let k = choose|k: int|
                    0 <= k < s.deleted_log().len() && s.deleted_log()[k] == j;
                assert(s.deleted_log().push(s.cursor())[k] == j);
            }
        }
        lemma_overdue_member(q, a, j);
        let k = choose|k: int| 0 <= k < q.len() && q[k] == j && a[k] > MAX_QUEUE_AGE_SECONDS;
        assert(q.contains(j));
    }
    let m = choose|m: int| 0 <= m < s.queried_log().len() && s.queried_log()[m] == j;
    lemma_targets_member(qs, s.queried_log().len() as int, j);
    let watermark = if s.awaiting_delete() {
        s.cursor() + 1
    } else {
        s.cursor()
    };
    lemma_targets_member(qs, watermark, j);
}

/// A queried queue whose measured age was within the threshold is never
/// deleted.
pub proof fn lemma_young_queue_not_deleted(s: &Sweeper, k: int)
    requires
        s.wf(),
        0 <= k < s.queried_log().len(),
        s.age_log()[k] <= MAX_QUEUE_AGE_SECONDS,
    ensures
        !s.deleted_log().contains(s.queried_log()[k]),
{
    let q = s.queried_log();
    let a = s.age_log();
    let j = q[k];
    if s.deleted_log().contains(j) {
        assert(overdue(q, a).contains(j)) by {
            if s.awaiting_delete() {
                let m = choose|m: int|
                    0 <= m < s.deleted_log().len() && s.deleted_log()[m] == j;
                assert(s.deleted_log().push(s.cursor())[m] == j);
            }
        }
        lemma_overdue_member(q, a, j);
        let k2 = choose|k2: int| 0 <= k2 < q.len() && q[k2] == j && a[k2] > MAX_QUEUE_AGE_SECONDS;
        let watermark = if s.awaiting_delete() {
            s.cursor() + 1
        } else {
            s.cursor()
        };
        lemma_selected_below_increasing(watermark, sweepable_pred(s.queue_list()));
        assert(k != k2);
        if k < k2 {
            assert(q[k] < q[k2]);
        } else {
            assert(q[k2] < q[k]);
        }
    }
}

/// In a completed sweep, a queried queue whose measured age exceeded the
/// threshold was deleted exactly once.
pub proof fn lemma_old_queue_deleted_once(s: &Sweeper, k: int)
    requires
        s.wf(),
        s.is_done(),
        0 <= k < s.queried_log().len(),
        s.age_log()[k] > MAX_QUEUE_AGE_SECONDS,
    ensures
        occurrences(s.deleted_log(), s.queried_log()[k]) == 1,
{
    let q = s.queried_log();
    let a = s.age_log();
    lemma_overdue_complete(q, a, k);
    lemma_occurrences_contains(s.deleted_log(), q[k]);
    lemma_selected_below_increasing(s.cursor(), sweepable_pred(s.queue_list()));
    lemma_overdue_increasing(q, a);
    lemma_strictly_increasing_occurrences(s.deleted_log(), q[k]);
}

/// In a completed sweep, every marked queue had its age queried exactly once.
pub proof fn lemma_marked_queue_queried_once(s: &Sweeper, j: int)
    requires
        s.wf(),
        s.is_done(),
        0 <= j < s.queue_list().len(),
        sweepable(s.queue_list()[j]@),
    ensures
        occurrences(s.queried_log(), j) == 1,
{
    lemma_targets_member(s.queue_list(), s.cursor(), j);
    lemma_occurrences_contains(s.queried_log(), j);
    lemma_selected_below_increasing(s.cursor(), sweepable_pred(s.queue_list()));
    lemma_strictly_increasing_occurrences(s.queried_log(), j);
}

/// In a completed sweep, the age queries cover exactly the marked queues in
/// list order, and the deletions are exactly the overdue ones among them.
pub proof fn lemma_done_sweep(s: &Sweeper)
    requires
        s.wf(),
        s.is_done(),
    ensures
        s.queried_log() == sweep_targets(s.queue_list(), s.queue_list().len() as int),
        s.age_log().len() == s.queried_log().len(),
        s.deleted_log() == overdue(s.queried_log(), s.age_log()),
        strictly_increasing(s.queried_log()),
{
    lemma_selected_below_increasing(s.cursor(), sweepable_pred(s.queue_list()));
}

/// In an aborted sweep, no queue at or past the failure point was queried or
/// deleted: one failed measurement halts the whole sweep.
pub proof fn lemma_sweep_fail_fast(s: &Sweeper, j: int)
    requires
        s.wf(),
        s.is_failed(),
        j >= s.cursor(),
    ensures
        !s.queried_log().contains(j),
        !s.deleted_log().contains(j),
{
    let q = s.queried_log();
    let a = s.age_log();
    if q.contains(j) {
        lemma_targets_member(s.queue_list(), s.cursor(), j);
    }
    if s.deleted_log().contains(j) {
        lemma_overdue_member(q, a, j);
        let k = choose|k: int| 0 <= k < q.len() && q[k] == j && a[k] > MAX_QUEUE_AGE_SECONDS;
        assert(q.contains(j));
        lemma_targets_member(s.queue_list(), s.cursor(), j);
    }
}

} // verus!
