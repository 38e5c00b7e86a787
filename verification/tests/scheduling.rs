use pathtracer::scheduler::{next_action, SchedulerAction, StatusTable, TaskStatus};

#[test]
fn fresh_table_has_no_work_done() {
    let table = StatusTable::new(3);
    assert_eq!(table.len(), 3);
    assert_eq!(table.status(0), TaskStatus::NotStarted);
    assert_eq!(table.status(1), TaskStatus::NotStarted);
    assert_eq!(table.status(2), TaskStatus::NotStarted);
    assert_eq!(table.running_count(), 0);
    assert!(!table.all_completed());
}

#[test]
fn rows_are_claimed_in_order_and_once() {
    let mut table = StatusTable::new(3);
    assert_eq!(table.claim_next(), Some(0));
    assert_eq!(table.claim_next(), Some(1));
    assert_eq!(table.claim_next(), Some(2));
    assert_eq!(table.claim_next(), None);
    assert_eq!(table.status(0), TaskStatus::Running);
    assert_eq!(table.status(1), TaskStatus::Running);
    assert_eq!(table.status(2), TaskStatus::Running);
    assert_eq!(table.running_count(), 3);
}

#[test]
fn completion_is_recorded_per_row() {
    let mut table = StatusTable::new(2);
    assert_eq!(table.claim_next(), Some(0));
    assert_eq!(table.claim_next(), Some(1));
    table.mark_completed(0);
    assert_eq!(table.status(0), TaskStatus::Completed);
    assert_eq!(table.status(1), TaskStatus::Running);
    assert_eq!(table.running_count(), 1);
    assert!(!table.all_completed());
    table.mark_completed(1);
    assert!(table.all_completed());
    assert_eq!(table.running_count(), 0);
}

#[test]
fn coordinator_waits_at_capacity() {
    let mut table = StatusTable::new(2);
    assert_eq!(next_action(&mut table, 0), SchedulerAction::Wait);
    assert_eq!(next_action(&mut table, 1), SchedulerAction::Spawn(0));
    assert_eq!(next_action(&mut table, 1), SchedulerAction::Wait);
    table.mark_completed(0);
    assert_eq!(next_action(&mut table, 1), SchedulerAction::Spawn(1));
    table.mark_completed(1);
    assert_eq!(next_action(&mut table, 1), SchedulerAction::Done);
}

#[test]
fn coordinator_waits_while_claimed_rows_finish() {
    let mut table = StatusTable::new(1);
    assert_eq!(next_action(&mut table, 4), SchedulerAction::Spawn(0));
    assert_eq!(next_action(&mut table, 4), SchedulerAction::Wait);
    table.mark_completed(0);
    assert_eq!(next_action(&mut table, 4), SchedulerAction::Done);
}
