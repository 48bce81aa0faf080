use homework_backup::backup_service::{BackupService, BACKUP_DEBOUNCE_SECONDS};
use homework_backup::config::Configuration;

fn service() -> BackupService {
    BackupService::new(Configuration::default())
}

#[test]
fn new_service_has_no_backup_pending() {
    let service = service();
    assert_eq!(service.next_timed_backup, None);
}

#[test]
fn schedule_sets_deadline_one_interval_ahead() {
    let mut service = service();
    service.schedule_backup_at(1000);
    assert_eq!(service.next_timed_backup, Some(1000 + BACKUP_DEBOUNCE_SECONDS));
}

#[test]
fn debounce_keeps_only_the_last_request() {
    let mut service = service();
    service.schedule_backup_at(1000);
    service.schedule_backup_at(500);
    service.schedule_backup_at(2000);
    assert_eq!(service.next_timed_backup, Some(2000 + BACKUP_DEBOUNCE_SECONDS));
}

#[test]
fn schedule_near_the_end_of_time_saturates() {
    let mut service = service();
    service.schedule_backup_at(i64::MAX - 1);
    assert_eq!(service.next_timed_backup, Some(i64::MAX));
}

#[test]
fn fire_without_pending_deadline_is_a_no_op() {
    let mut service = service();
    assert!(!service.fire_due_backup(1_000_000));
    assert_eq!(service.next_timed_backup, None);
}

#[test]
fn fire_before_the_deadline_changes_nothing() {
    let mut service = service();
    service.schedule_backup_at(1000);
    assert!(!service.fire_due_backup(1000 + BACKUP_DEBOUNCE_SECONDS - 1));
    assert_eq!(service.next_timed_backup, Some(1000 + BACKUP_DEBOUNCE_SECONDS));
}

#[test]
fn a_due_deadline_fires_exactly_once() {
    let mut service = service();
    service.schedule_backup_at(1000);
    let due = 1000 + BACKUP_DEBOUNCE_SECONDS;
    assert!(service.fire_due_backup(due));
    assert_eq!(service.next_timed_backup, None);
    assert!(!service.fire_due_backup(due));
    assert!(!service.fire_due_backup(due + 1));
}

#[test]
fn check_without_pending_deadline_returns_no_job() {
    let mut service = service();
    assert!(service.check_timed_backup().is_none());
    assert_eq!(service.next_timed_backup, None);
}

#[test]
fn request_leaves_a_backup_pending() {
    let mut service = service();
    service.request_timed_backup();
    assert!(service.next_timed_backup.is_some());
}

#[test]
fn backup_plan_reflects_the_configuration() {
    let service = service();
    let plan = service.backup_plan_at(1234);
    assert_eq!(plan.archive_timestamp, 1234);
    assert_eq!(plan.archive_file_name, "1234.zip");
    assert_eq!(plan.backup_folder_path, "application/backups");
    assert_eq!(plan.database_file_path, "application/database.sqlite");
    assert_eq!(plan.attachments_folder_path, "application/attachments");
    assert_eq!(plan.maximum_backups, 3);
}

#[test]
fn backup_plan_clamps_a_clock_before_the_epoch() {
    let service = service();
    let plan = service.backup_plan_at(-5);
    assert_eq!(plan.archive_timestamp, 0);
    assert_eq!(plan.archive_file_name, "0.zip");
}

#[test]
fn backup_plan_uses_configured_paths() {
    let configuration = Configuration {
        server_address: None,
        server_port: None,
        attachment_path: Some("/data/attachments".to_string()),
        thumbnail_path: None,
        log_level: None,
        backup_path: Some("/data/backups".to_string()),
        maximum_backups: Some(5),
    };
    let service = BackupService::new(configuration);
    let plan = service.backup_plan_at(99);
    assert_eq!(plan.archive_file_name, "99.zip");
    assert_eq!(plan.backup_folder_path, "/data/backups");
    assert_eq!(plan.attachments_folder_path, "/data/attachments");
    assert_eq!(plan.maximum_backups, 5);
}
