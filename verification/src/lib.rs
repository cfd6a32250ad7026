//! Maintenance logic for a job pipeline backed by external managed services.
//!
//! Two independent batch operations are modelled as explicit state machines:
//!
//! * the queue age sweeper ([`sweeper::Sweeper`]) walks a list of queue
//!   identifiers, asks for the age of each queue whose name matches the
//!   pipeline's naming convention, and requests deletion of those older than
//!   the fixed threshold;
//! * the queued-job promoter ([`promoter::Promoter`]) walks the records
//!   returned by a scan of the record store, and for each record whose status
//!   is `"QUEUED"` requests an update to `"PROCESSING"` followed by one
//!   notification.
//!
//! The machines decide; an unverified driver performs the service calls and
//! reports each outcome back. Every decision, and the trace of commands each
//! machine can emit, is verified here.

use vstd::prelude::*;

pub mod promoter;
pub mod sweeper;
pub mod text;
pub mod trace;

verus! {

/// Age threshold for queue deletion: queues older than two hours go.
pub const MAX_QUEUE_AGE_SECONDS: i64 = 7200;

/// Substring that marks a queue as owned by the pipeline and so subject to
/// age-based deletion.
pub fn queue_name_marker() -> (m: &'static str)
    ensures
        m@ == "requestUpdates"@,
{
    "requestUpdates"
}

/// Name of the record-store table holding the job records.
pub fn table_name() -> (m: &'static str)
    ensures
        m@ == "mockRequests"@,
{
    "mockRequests"
}

/// Attribute holding a record's status.
pub fn status_attribute() -> (m: &'static str)
    ensures
        m@ == "jobStatus"@,
{
    "jobStatus"
}

/// Attribute holding a record's key.
pub fn key_attribute() -> (m: &'static str)
    ensures
        m@ == "requestID"@,
{
    "requestID"
}

/// Status of a record waiting to be promoted.
pub fn status_queued() -> (m: &'static str)
    ensures
        m@ == "QUEUED"@,
{
    "QUEUED"
}

/// Status a record is promoted to.
pub fn status_processing() -> (m: &'static str)
    ensures
        m@ == "PROCESSING"@,
{
    "PROCESSING"
}

/// Text published once per promoted record.
pub fn notification_message() -> (m: &'static str)
    ensures
        m@ == "JOB UPDATED TO PROCESSING"@,
{
    "JOB UPDATED TO PROCESSING"
}

} // verus!
