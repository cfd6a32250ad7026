use nardo_proc::sweeper::{SweepCommand, Sweeper};
use nardo_proc::text::str_contains;
use nardo_proc::{queue_name_marker, MAX_QUEUE_AGE_SECONDS};

fn names(list: &[&str]) -> Vec<String> {
    list.iter().map(|s| s.to_string()).collect()
}

#[test]
fn threshold_is_two_hours() {
    assert_eq!(MAX_QUEUE_AGE_SECONDS, 7200);
    assert_eq!(queue_name_marker(), "requestUpdates");
}

#[test]
fn str_contains_finds_substrings() {
    assert!(str_contains("requestUpdates-1", "requestUpdates"));
    assert!(str_contains("a-requestUpdates-b", "requestUpdates"));
    assert!(str_contains("requestUpdates", "requestUpdates"));
    assert!(!str_contains("other-queue", "requestUpdates"));
    assert!(!str_contains("requestUpdate", "requestUpdates"));
    assert!(!str_contains("", "requestUpdates"));
    assert!(str_contains("anything", ""));
    assert!(!str_contains("request-Updates", "requestUpdates"));
}

#[test]
fn sweeps_only_old_marked_queues() {
    // Three queues: a fresh marked one, an old marked one, and an old
    // unmarked one. Only the old marked queue is deleted, and the unmarked
    // queue's age is never asked for.
    let mut s = Sweeper::new(names(&["requestUpdates-1", "requestUpdates-2", "other-queue"]));
    assert_eq!(s.next_command(), SweepCommand::QueryAge { index: 0 });
    s.age_received(3600);
    assert_eq!(s.next_command(), SweepCommand::QueryAge { index: 1 });
    s.age_received(10000);
    assert_eq!(s.next_command(), SweepCommand::DeleteQueue { index: 1 });
    s.delete_confirmed();
    assert_eq!(s.next_command(), SweepCommand::Finished);
}

#[test]
fn unmarked_queues_are_never_queried() {
    let mut s = Sweeper::new(names(&["alpha", "beta", "gamma"]));
    assert_eq!(s.next_command(), SweepCommand::Finished);
    s = Sweeper::new(names(&[]));
    assert_eq!(s.next_command(), SweepCommand::Finished);
}

#[test]
fn age_at_threshold_is_kept() {
    let mut s = Sweeper::new(names(&["requestUpdates-a"]));
    assert_eq!(s.next_command(), SweepCommand::QueryAge { index: 0 });
    s.age_received(7200);
    assert_eq!(s.next_command(), SweepCommand::Finished);
}

#[test]
fn age_just_over_threshold_is_deleted() {
    let mut s = Sweeper::new(names(&["requestUpdates-a"]));
    assert_eq!(s.next_command(), SweepCommand::QueryAge { index: 0 });
    s.age_received(7201);
    assert_eq!(s.next_command(), SweepCommand::DeleteQueue { index: 0 });
    s.delete_confirmed();
    assert_eq!(s.next_command(), SweepCommand::Finished);
}

#[test]
fn failed_age_query_aborts_the_sweep() {
    let mut s = Sweeper::new(names(&["requestUpdates-1", "requestUpdates-2"]));
    assert_eq!(s.next_command(), SweepCommand::QueryAge { index: 0 });
    s.age_failed();
    assert_eq!(s.next_command(), SweepCommand::Aborted);
    assert_eq!(s.next_command(), SweepCommand::Aborted);
}

#[test]
fn marker_in_the_middle_of_a_name_counts() {
    let mut s = Sweeper::new(names(&["team-requestUpdates-prod"]));
    assert_eq!(s.next_command(), SweepCommand::QueryAge { index: 0 });
    s.age_received(9000);
    assert_eq!(s.next_command(), SweepCommand::DeleteQueue { index: 0 });
    s.delete_confirmed();
    assert_eq!(s.next_command(), SweepCommand::Finished);
}

#[test]
fn queue_accessors_report_the_list() {
    let s = Sweeper::new(names(&["requestUpdates-1", "other"]));
    assert_eq!(s.queue_count(), 2);
    assert_eq!(s.queue_name(0), "requestUpdates-1");
    assert_eq!(s.queue_name(1), "other");
}

#[test]
fn marked_queues_interleaved_with_unmarked_ones() {
    let mut s = Sweeper::new(names(&[
        "plain-a",
        "requestUpdates-x",
        "plain-b",
        "requestUpdates-y",
        "plain-c",
    ]));
    assert_eq!(s.next_command(), SweepCommand::QueryAge { index: 1 });
    s.age_received(10_000);
    assert_eq!(s.next_command(), SweepCommand::DeleteQueue { index: 1 });
    s.delete_confirmed();
    assert_eq!(s.next_command(), SweepCommand::QueryAge { index: 3 });
    s.age_received(5);
    assert_eq!(s.next_command(), SweepCommand::Finished);
}
