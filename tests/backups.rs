use easyparquet::backups::{BatchBackup, RemoveOutcome, TableBackup, TaskOutcome};
use easyparquet::config::{parse_tables, trimmed, Config};
use easyparquet::error::BackupError;

#[test]
fn paths_of_a_table() {
    let b = TableBackup::new("/backups", "users");
    assert_eq!(b.file_path(), "/backups/users.parquet");
    assert_eq!(b.temp_path(), "/backups/users.temp");
}

#[test]
fn tables_are_added_once() {
    let mut batch = BatchBackup::new(String::from("out"));
    batch.add_table(String::from("a"));
    batch.add_table(String::from("b"));
    batch.add_table(String::from("a"));
    assert_eq!(batch.tables(), &vec![String::from("a"), String::from("b")]);
    assert_eq!(batch.table_backup("b").file_path(), "out/b.parquet");
}

#[test]
fn abort_tolerates_missing_files() {
    for _ in 0..2 {
        assert!(TableBackup::after_removal(RemoveOutcome::NotFound).is_ok());
        assert!(TableBackup::after_removal(RemoveOutcome::NotFound).is_ok());
    }
    assert!(TableBackup::after_removal(RemoveOutcome::Removed).is_ok());
    let r = TableBackup::after_removal(RemoveOutcome::Failed(String::from("denied")));
    assert!(matches!(r, Err(BackupError::WriteError(ref m)) if m == "denied"));
}

#[test]
fn settle_returns_the_read_error() {
    let read = Err(BackupError::ReadError(String::from("lost")));
    assert!(matches!(TableBackup::settle(read, Some(Ok(()))), Err(BackupError::ReadError(_))));
    let read = Err(BackupError::ReadError(String::from("lost")));
    let abort = Some(Err(BackupError::WriteError(String::from("denied"))));
    assert!(matches!(TableBackup::settle(read, abort), Err(BackupError::WriteError(_))));
    assert!(TableBackup::settle(Ok(()), None).is_ok());
}

#[test]
fn fan_out_fail_fast() {
    let outcomes = vec![
        TaskOutcome::Succeeded,
        TaskOutcome::Failed(BackupError::ReadError(String::from("B failed"))),
        TaskOutcome::Succeeded,
    ];
    let mut result = Ok(());
    for o in outcomes {
        if let Some(e) = BatchBackup::on_outcome(o) {
            result = Err(e);
            break;
        }
    }
    assert!(matches!(result, Err(BackupError::ReadError(ref m)) if m == "B failed"));
    let crashed = BatchBackup::on_outcome(TaskOutcome::Crashed(String::from("panic")));
    assert!(matches!(crashed, Some(BackupError::Unrecoverable(_))));
    assert!(BatchBackup::on_outcome(TaskOutcome::Succeeded).is_none());
}

#[test]
fn config_splits_tables() {
    let c = match Config::build(
        Some(String::from("mysql://u:p@h/db")),
        Some(String::from("/tmp/out")),
        Some(String::from(" users ; accounts;;\t; logs")),
    ) {
        Ok(c) => c,
        Err(_) => panic!("a full configuration was refused"),
    };
    assert_eq!(c.get_uri(), "mysql://u:p@h/db");
    assert_eq!(c.backup_directory, "/tmp/out");
    assert_eq!(c.database_tables, vec!["users", "accounts", "logs"]);
    assert!(parse_tables("").is_empty());
    assert_eq!(parse_tables("one"), vec!["one"]);
    assert_eq!(trimmed("\u{3000} x y \n"), "x y");
}

#[test]
fn config_names_the_missing_variable() {
    let r = Config::build(None, Some(String::from("d")), Some(String::from("t")));
    assert!(matches!(r, Err(ref m) if m == "Environment variable database_uri is required."));
    let r = Config::build(Some(String::from("u")), Some(String::from("d")), None);
    assert!(matches!(r, Err(ref m) if m == "Environment variable database_tables is required."));
}
