//! The queued-job promoter.
//!
//! A [`Promoter`] walks the job records returned by a scan of the record
//! store, in scan order. For each record whose status is `"QUEUED"` it asks
//! the driver to update the record's status to `"PROCESSING"`, and after the
//! update is confirmed, to publish one notification. The first failed update
//! or publish aborts the remainder of the batch. The ghost logs record every
//! confirmed update and publish, so the batch's guarantees are stated over
//! complete traces.

use vstd::prelude::*;

use crate::status_queued;
use crate::trace::{
    lemma_occurrences_contains, lemma_selected_below_increasing, lemma_selected_below_member,
    lemma_selected_below_skip, lemma_strictly_increasing_occurrences, occurrences, selected_below,
    strictly_increasing,
};

verus! {

/// One entry of the record store: a job keyed by its request identifier,
/// with its status attribute.
#[derive(Debug)]
pub struct JobRecord {
    pub request_id: String,
    pub job_status: String,
}

/// A record is due for promotion exactly when its status is `"QUEUED"`.
pub open spec fn queued(r: JobRecord) -> bool {
    r.job_status@ == "QUEUED"@
}

/// Queuedness of the record at a given index of the scan result.
pub open spec fn queued_pred(records: Seq<JobRecord>) -> spec_fn(int) -> bool {
    |i: int| queued(records[i])
}

/// The indices of the queued records among the first `n`, in scan order.
pub open spec fn promotion_targets(records: Seq<JobRecord>, n: int) -> Seq<int> {
    selected_below(n, queued_pred(records))
}

/// What the promoter asks its driver to do next.
#[derive(Clone, Copy, Debug, PartialEq, Eq, Structural)]
pub enum PromoteCommand {
    /// Set the status of the record at this index to `"PROCESSING"`, keyed by
    /// the record's request identifier.
    UpdateStatus { index: usize },
    /// Publish one notification for the record at this index.
    PublishNotice { index: usize },
    /// Every record has been handled; the batch is complete.
    Finished,
    /// An update or publish failed; the batch stops here.
    Aborted,
}

enum PromotePhase {
    Update,
    Publish,
    Done,
    Fail,
}

/// The promotion state machine.
pub struct Promoter {
    records: Vec<JobRecord>,
    pos: usize,
    phase: PromotePhase,
    updated: Ghost<Seq<int>>,
    published: Ghost<Seq<int>>,
}

impl Promoter {
    /// The scanned records the batch was started with.
    pub closed spec fn record_list(self) -> Seq<JobRecord> {
        self.records@
    }

    /// The index the machine is currently working at.
    pub closed spec fn cursor(self) -> int {
        self.pos as int
    }

    /// The machine waits for the update of the record at the cursor.
    pub closed spec fn awaiting_update(self) -> bool {
        self.phase is Update
    }

    /// The machine waits for the notification for the record at the cursor.
    pub closed spec fn awaiting_publish(self) -> bool {
        self.phase is Publish
    }

    /// The batch has handled every record.
    pub closed spec fn is_done(self) -> bool {
        self.phase is Done
    }

    /// The batch stopped after a failed update or publish.
    pub closed spec fn is_failed(self) -> bool {
        self.phase is Fail
    }

    /// Indices whose update the driver has confirmed, in order.
    pub closed spec fn updated_log(self) -> Seq<int> {
        self.updated@
    }

    /// Indices whose notification the driver has confirmed, in order.
    pub closed spec fn published_log(self) -> Seq<int> {
        self.published@
    }

    /// The machine's invariant: the logs are exactly what the walk up to the
    /// cursor dictates, with the publish for a record trailing its update.
    pub closed spec fn wf(self) -> bool {
        let rs = self.records@;
        let n = rs.len() as int;
        &&& self.pos as int <= n
        &&& (self.phase is Update ==> self.pos < n && queued(rs[self.pos as int]))
        &&& (self.phase is Publish ==> self.pos < n && queued(rs[self.pos as int]))
        &&& (self.phase is Done ==> self.pos == n)
        &&& self.published@ == promotion_targets(rs, self.pos as int)
        &&& if self.phase is Publish {
            self.updated@ == promotion_targets(rs, self.pos as int + 1)
        } else if self.phase is Fail {
            self.updated@ == promotion_targets(rs, self.pos as int) || (self.pos < n && queued(
                rs[self.pos as int],
            ) && self.updated@ == promotion_targets(rs, self.pos as int + 1))
        } else {
            self.updated@ == promotion_targets(rs, self.pos as int)
        }
    }

    /// Start a batch over the given scan result.
    pub fn new(records: Vec<JobRecord>) -> (p: Promoter)
        ensures
            p.wf(),
            p.record_list() == records@,
            p.updated_log() == Seq::<int>::empty(),
            p.published_log() == Seq::<int>::empty(),
            !p.is_failed(),
    {
        let pos = seek_queued(&records, 0);
        let phase = if pos < records.len() {
            PromotePhase::Update
        } else {
            PromotePhase::Done
        };
        proof {
            lemma_targets_skip(records@, 0, pos as int);
        }
        Promoter {
            records,
            pos,
            phase,
            updated: Ghost(Seq::empty()),
            published: Ghost(Seq::empty()),
        }
    }

    /// How many records the batch covers.
    pub fn record_count(&self) -> (n: usize)
        ensures
            n == self.record_list().len(),
    {
        self.records.len()
    }

    /// The record at an index.
    pub fn record_at(&self, index: usize) -> (r: &JobRecord)
        requires
            index < self.record_list().len(),
        ensures
            r == self.record_list()[index as int],
    {
        &self.records[index]
    }

    /// What the driver must do next. An update is requested only for a
    /// record whose status is `"QUEUED"`; a notification is requested only
    /// for a record whose update was confirmed.
    pub fn next_command(&self) -> (c: PromoteCommand)
        requires
            self.wf(),
        ensures
            self.awaiting_update() ==> (c matches PromoteCommand::UpdateStatus { index } && index
                as int == self.cursor() && index < self.record_list().len() && queued(
                self.record_list()[index as int],
            )),
            self.awaiting_publish() ==> (c matches PromoteCommand::PublishNotice { index } && index
                as int == self.cursor() && index < self.record_list().len() && queued(
                self.record_list()[index as int],
            ) && self.updated_log().contains(index as int)),
            self.is_done() ==> c == PromoteCommand::Finished,
            self.is_failed() ==> c == PromoteCommand::Aborted,
            (c matches PromoteCommand::UpdateStatus { index }) ==> self.awaiting_update(),
            (c matches PromoteCommand::PublishNotice { index }) ==> self.awaiting_publish(),
            c == PromoteCommand::Finished ==> self.is_done(),
            c == PromoteCommand::Aborted ==> self.is_failed(),
    {
        proof {
            if self.phase is Publish {
                lemma_targets_member(self.records@, self.pos as int + 1, self.pos as int);
            }
        }
        match self.phase {
            PromotePhase::Update => PromoteCommand::UpdateStatus { index: self.pos },
            PromotePhase::Publish => PromoteCommand::PublishNotice { index: self.pos },
            PromotePhase::Done => PromoteCommand::Finished,
            PromotePhase::Fail => PromoteCommand::Aborted,
        }
    }

    /// The driver confirms the update of the record at the cursor.
    pub fn update_confirmed(&mut self)
        requires
            old(self).wf(),
            old(self).awaiting_update(),
        ensures
            final(self).wf(),
            final(self).awaiting_publish(),
            final(self).record_list() == old(self).record_list(),
            final(self).updated_log() == old(self).updated_log().push(old(self).cursor()),
            final(self).published_log() == old(self).published_log(),
            final(self).cursor() == old(self).cursor(),
    {
        self.updated = Ghost(self.updated@.push(self.pos as int));
        proof {
            lemma_targets_step(self.records@, self.pos as int);
        }
        self.phase = PromotePhase::Publish;
    }

    /// The driver reports that the update of the record at the cursor
    /// failed. The batch stops; nothing further will be requested, and the
    /// failed record is not counted as updated.
    pub fn update_failed(&mut self)
        requires
            old(self).wf(),
            old(self).awaiting_update(),
        ensures
            final(self).wf(),
            final(self).is_failed(),
            final(self).record_list() == old(self).record_list(),
            final(self).updated_log() == old(self).updated_log(),
            final(self).published_log() == old(self).published_log(),
            final(self).cursor() == old(self).cursor(),
    {
        self.phase = PromotePhase::Fail;
    }

    /// The driver confirms the notification for the record at the cursor.
    pub fn publish_confirmed(&mut self)
        requires
            old(self).wf(),
            old(self).awaiting_publish(),
        ensures
            final(self).wf(),
            final(self).record_list() == old(self).record_list(),
            final(self).updated_log() == old(self).updated_log(),
            final(self).published_log() == old(self).published_log().push(old(self).cursor()),
            !final(self).is_failed(),
            final(self).cursor() > old(self).cursor(),
    {
        let len = self.records.len();
        self.published = Ghost(self.published@.push(self.pos as int));
        proof {
            lemma_targets_step(self.records@, self.pos as int);
        }
        let next = seek_queued(&self.records, self.pos + 1);
        proof {
            lemma_targets_skip(self.records@, self.pos as int + 1, next as int);
        }
        self.pos = next;
        self.phase = if next < len {
            PromotePhase::Update
        } else {
            PromotePhase::Done
        };
    }

    /// The driver reports that the notification for the record at the cursor
    /// failed. The batch stops; the record stays updated, unnotified.
    pub fn publish_failed(&mut self)
        requires
            old(self).wf(),
            old(self).awaiting_publish(),
        ensures
            final(self).wf(),
            final(self).is_failed(),
            final(self).record_list() == old(self).record_list(),
            final(self).updated_log() == old(self).updated_log(),
            final(self).published_log() == old(self).published_log(),
            final(self).cursor() == old(self).cursor(),
    {
        self.phase = PromotePhase::Fail;
    }
}

/// Whether a record's status is `"QUEUED"`.
pub fn record_is_queued(r: &JobRecord) -> (b: bool)
    ensures
        b == queued(*r),
{
    let q = status_queued().to_owned();
    r.job_status == q
}

/// The first index at or after `start` whose record is queued.
fn seek_queued(records: &Vec<JobRecord>, start: usize) -> (r: usize)
    requires
        start <= records@.len(),
    ensures
        start <= r <= records@.len(),
        forall|k: int| start <= k < r ==> !queued(records@[k]),
        r < records@.len() ==> queued(records@[r as int]),
{
    let mut i = start;
    while i < records.len()
        invariant
            start <= i <= records@.len(),
            forall|k: int| start <= k < i ==> !queued(records@[k]),
        decreases records@.len() - i,
    {
        if record_is_queued(&records[i]) {
            return i;
        }
        i += 1;
    }
    i
}

/// Where no record in `[a, b)` is queued, the targets below `b` are those below `a`.
proof fn lemma_targets_skip(records: Seq<JobRecord>, a: int, b: int)
    requires
        0 <= a <= b,
        forall|k: int| a <= k < b ==> !queued(records[k]),
    ensures
        promotion_targets(records, b) == promotion_targets(records, a),
{
    let p = queued_pred(records);
    assert forall|k: int| a <= k < b implies !#[trigger] p(k) by {
        assert(!queued(records[k]));
    }
    lemma_selected_below_skip(a, b, p);
}

/// A queued record at `n` extends the targets below `n` by `n`.
proof fn lemma_targets_step(records: Seq<JobRecord>, n: int)
    requires
        0 <= n,
        queued(records[n]),
    ensures
        promotion_targets(records, n + 1) == promotion_targets(records, n).push(n),
{
    assert(queued_pred(records)(n));
}

/// Membership in the targets is exactly being a queued index in range.
proof fn lemma_targets_member(records: Seq<JobRecord>, n: int, j: int)
    ensures
        promotion_targets(records, n).contains(j) <==> (0 <= j < n && queued(records[j])),
{
    lemma_selected_below_member(n, queued_pred(records), j);
    assert(queued_pred(records)(j) == queued(records[j]));
}

/// Only records whose status is `"QUEUED"` are ever updated or notified
/// about, in any reachable state of a batch.
pub proof fn lemma_promoter_touches_only_queued(p: &Promoter, j: int)
    requires
        p.wf(),
        p.updated_log().contains(j) || p.published_log().contains(j),
    ensures
        0 <= j < p.record_list().len(),
        queued(p.record_list()[j]),
{
    let rs = p.record_list();
    lemma_targets_member(rs, p.cursor(), j);
    lemma_targets_member(rs, p.cursor() + 1, j);
}

/// A record is notified about only after its update was confirmed.
pub proof fn lemma_publish_follows_update(p: &Promoter, j: int)
    requires
        p.wf(),
        p.published_log().contains(j),
    ensures
        p.updated_log().contains(j),
{
    let rs = p.record_list();
    lemma_targets_member(rs, p.cursor(), j);
    lemma_targets_member(rs, p.cursor() + 1, j);
}

/// In a completed batch, the updates and the notifications each cover
/// exactly the queued records of the scan, in scan order.
pub proof fn lemma_done_promotions(p: &Promoter)
    requires
        p.wf(),
        p.is_done(),
    ensures
        p.updated_log() == promotion_targets(p.record_list(), p.record_list().len() as int),
        p.published_log() == p.updated_log(),
        strictly_increasing(p.updated_log()),
{
    lemma_selected_below_increasing(p.cursor(), queued_pred(p.record_list()));
}

/// In a completed batch, each queued record of the scan got exactly one
/// update and exactly one notification.
pub proof fn lemma_queued_promoted_once(p: &Promoter, j: int)
    requires
        p.wf(),
        p.is_done(),
        0 <= j < p.record_list().len(),
        queued(p.record_list()[j]),
    ensures
        occurrences(p.updated_log(), j) == 1,
        occurrences(p.published_log(), j) == 1,
{
    lemma_targets_member(p.record_list(), p.cursor(), j);
    lemma_occurrences_contains(p.updated_log(), j);
    lemma_occurrences_contains(p.published_log(), j);
    lemma_selected_below_increasing(p.cursor(), queued_pred(p.record_list()));
    lemma_strictly_increasing_occurrences(p.updated_log(), j);
    lemma_strictly_increasing_occurrences(p.published_log(), j);
}

/// In an aborted batch, no record past the failure point was updated or
/// notified about: one failure halts the whole batch.
pub proof fn lemma_promoter_fail_fast(p: &Promoter, j: int)
    requires
        p.wf(),
        p.is_failed(),
        j > p.cursor(),
    ensures
        !p.updated_log().contains(j),
        !p.published_log().contains(j),
{
    let rs = p.record_list();
    lemma_targets_member(rs, p.cursor(), j);
    lemma_targets_member(rs, p.cursor() + 1, j);
}

} // verus!
