use nardo_proc::promoter::{record_is_queued, JobRecord, PromoteCommand, Promoter};
use nardo_proc::{
    key_attribute, notification_message, status_attribute, status_processing, status_queued,
    table_name,
};

fn record(id: &str, status: &str) -> JobRecord {
    JobRecord { request_id: id.to_string(), job_status: status.to_string() }
}

#[test]
fn pipeline_constants_are_fixed() {
    assert_eq!(table_name(), "mockRequests");
    assert_eq!(status_attribute(), "jobStatus");
    assert_eq!(key_attribute(), "requestID");
    assert_eq!(status_queued(), "QUEUED");
    assert_eq!(status_processing(), "PROCESSING");
    assert_eq!(notification_message(), "JOB UPDATED TO PROCESSING");
}

#[test]
fn record_is_queued_checks_the_status() {
    assert!(record_is_queued(&record("a", "QUEUED")));
    assert!(!record_is_queued(&record("a", "PROCESSING")));
    assert!(!record_is_queued(&record("a", "queued")));
    assert!(!record_is_queued(&record("a", "")));
}

#[test]
fn only_queued_records_are_promoted() {
    // Scan returned one queued and one already-processing record: exactly one
    // update and one publish happen, both for the queued record.
    let mut p = Promoter::new(vec![record("a", "QUEUED"), record("b", "PROCESSING")]);
    assert_eq!(p.next_command(), PromoteCommand::UpdateStatus { index: 0 });
    p.update_confirmed();
    assert_eq!(p.next_command(), PromoteCommand::PublishNotice { index: 0 });
    p.publish_confirmed();
    assert_eq!(p.next_command(), PromoteCommand::Finished);
}

#[test]
fn empty_scan_finishes_at_once() {
    let p = Promoter::new(vec![]);
    assert_eq!(p.next_command(), PromoteCommand::Finished);
}

#[test]
fn no_queued_records_means_nothing_to_do() {
    let p = Promoter::new(vec![record("a", "PROCESSING"), record("b", "DONE")]);
    assert_eq!(p.next_command(), PromoteCommand::Finished);
}

#[test]
fn queued_records_are_processed_in_scan_order() {
    let mut p = Promoter::new(vec![
        record("a", "QUEUED"),
        record("b", "PROCESSING"),
        record("c", "QUEUED"),
        record("d", "QUEUED"),
    ]);
    for expected in [0usize, 2, 3] {
        assert_eq!(p.next_command(), PromoteCommand::UpdateStatus { index: expected });
        p.update_confirmed();
        assert_eq!(p.next_command(), PromoteCommand::PublishNotice { index: expected });
        p.publish_confirmed();
    }
    assert_eq!(p.next_command(), PromoteCommand::Finished);
}

#[test]
fn failed_update_aborts_the_batch() {
    // The second record's update fails: the third is never touched.
    let mut p = Promoter::new(vec![
        record("a", "QUEUED"),
        record("b", "QUEUED"),
        record("c", "QUEUED"),
    ]);
    assert_eq!(p.next_command(), PromoteCommand::UpdateStatus { index: 0 });
    p.update_confirmed();
    assert_eq!(p.next_command(), PromoteCommand::PublishNotice { index: 0 });
    p.publish_confirmed();
    assert_eq!(p.next_command(), PromoteCommand::UpdateStatus { index: 1 });
    p.update_failed();
    assert_eq!(p.next_command(), PromoteCommand::Aborted);
    assert_eq!(p.next_command(), PromoteCommand::Aborted);
}

#[test]
fn failed_publish_aborts_the_batch() {
    let mut p = Promoter::new(vec![record("a", "QUEUED"), record("b", "QUEUED")]);
    assert_eq!(p.next_command(), PromoteCommand::UpdateStatus { index: 0 });
    p.update_confirmed();
    assert_eq!(p.next_command(), PromoteCommand::PublishNotice { index: 0 });
    p.publish_failed();
    assert_eq!(p.next_command(), PromoteCommand::Aborted);
}

#[test]
fn record_accessors_report_the_scan() {
    let p = Promoter::new(vec![record("a", "QUEUED"), record("b", "DONE")]);
    assert_eq!(p.record_count(), 2);
    assert_eq!(p.record_at(0).request_id, "a");
    assert_eq!(p.record_at(1).job_status, "DONE");
}
