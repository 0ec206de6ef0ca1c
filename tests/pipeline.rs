use easyparquet::backups::{BatchBackup, RemoveOutcome, TableBackup, TaskOutcome};
use easyparquet::batch::{assemble, RecordBatch};
use easyparquet::columns::ColumnArray;
use easyparquet::error::BackupError;
use easyparquet::pipeline::{
    channel_capacity, setup_flow, writer_command, writer_flow, TableScan, WriteMessage, WriterCommand,
    WriterFlow,
};
use easyparquet::schema::{ColumnData, Field, SourceType, TargetType};
use easyparquet::value::Value;

fn descriptor(name: &str, t: SourceType, unsigned: bool, nullable: bool) -> ColumnData {
    match ColumnData::new(String::from(name), unsigned, nullable, t) {
        Ok(d) => d,
        Err(_) => panic!("a supported type was refused"),
    }
}

fn ints(array: &ColumnArray) -> Vec<Option<i64>> {
    match array {
        ColumnArray::Int64(v) => v.clone(),
        _ => panic!("not an int array"),
    }
}

#[test]
fn minimal_table_one_batch() {
    let ds = vec![
        descriptor("id", SourceType::Long, true, false),
        descriptor("name", SourceType::VarString, false, true),
    ];
    let mut scan = TableScan::new(ds, 1000);
    let schema = scan.schema();
    assert_eq!(schema[0].data_type, TargetType::UInt64);
    assert!(!schema[0].nullable);
    assert_eq!(schema[1].data_type, TargetType::Utf8);
    assert!(schema[1].nullable);
    let rows = vec![
        vec![Value::Int(1), Value::Bytes(b"a".to_vec())],
        vec![Value::Int(2), Value::Null],
        vec![Value::Int(3), Value::Bytes(b"c".to_vec())],
    ];
    for row in rows {
        assert!(matches!(scan.push_row(row), Ok(None)));
    }
    let batch = match scan.finish() {
        Some(b) => b,
        None => panic!("no batch"),
    };
    assert_eq!(batch.num_rows(), 3);
    match &batch.columns()[0] {
        ColumnArray::UInt64(v) => assert_eq!(v, &vec![Some(1), Some(2), Some(3)]),
        _ => panic!("not an unsigned array"),
    }
    match &batch.columns()[1] {
        ColumnArray::Utf8(v) => {
            assert_eq!(v, &vec![Some(String::from("a")), None, Some(String::from("c"))])
        }
        _ => panic!("not a text array"),
    }
    assert!(scan.finish().is_none());
}

#[test]
fn chunking_boundary() {
    let mut scan = TableScan::new(vec![descriptor("n", SourceType::Long, false, false)], 1000);
    let mut batches: Vec<RecordBatch> = Vec::new();
    for i in 0..2500i64 {
        match scan.push_row(vec![Value::Int(i)]) {
            Ok(Some(b)) => batches.push(b),
            Ok(None) => {}
            Err(_) => panic!("a valid row failed"),
        }
    }
    if let Some(b) = scan.finish() {
        batches.push(b);
    }
    let sizes: Vec<usize> = batches.iter().map(|b| b.num_rows()).collect();
    assert_eq!(sizes, vec![1000, 1000, 500]);
    let all: Vec<Option<i64>> = batches.iter().flat_map(|b| ints(&b.columns()[0])).collect();
    let expected: Vec<Option<i64>> = (0..2500i64).map(Some).collect();
    assert_eq!(all, expected);
}

#[test]
fn non_nullable_null_in_row_seven() {
    let mut scan = TableScan::new(vec![descriptor("n", SourceType::Long, false, false)], 1000);
    for i in 1..7i64 {
        assert!(matches!(scan.push_row(vec![Value::Int(i)]), Ok(None)));
    }
    assert!(matches!(scan.push_row(vec![Value::Null]), Err(BackupError::NonNullableNull)));
}

#[test]
fn first_failing_cell_is_reported() {
    let ds = vec![
        descriptor("a", SourceType::Long, false, false),
        descriptor("b", SourceType::Date, false, true),
        descriptor("c", SourceType::VarString, false, false),
    ];
    let mut scan = TableScan::new(ds, 10);
    let r = scan.push_row(vec![Value::Int(1), Value::Date(2021, 2, 30, 0, 0, 0, 0), Value::Null]);
    assert!(matches!(r, Err(BackupError::InvalidDate)));
    let mut scan = TableScan::new(vec![descriptor("a", SourceType::Long, false, false)], 10);
    assert!(matches!(scan.push_row(vec![]), Err(BackupError::BatchShapeMismatch)));
}

#[test]
fn assemble_checks_shape() {
    let field = |t| Field { name: String::from("x"), data_type: t, nullable: true };
    let ok = assemble(
        vec![field(TargetType::Int64), field(TargetType::Float32)],
        vec![ColumnArray::Int64(vec![Some(1), None]), ColumnArray::Float32(vec![None, Some(0)])],
    );
    assert!(matches!(ok, Ok(ref b) if b.num_rows() == 2));
    let uneven = assemble(
        vec![field(TargetType::Int64), field(TargetType::Int64)],
        vec![ColumnArray::Int64(vec![Some(1)]), ColumnArray::Int64(vec![])],
    );
    assert!(matches!(uneven, Err(BackupError::BatchShapeMismatch)));
    let wrong_type = assemble(vec![field(TargetType::Utf8)], vec![ColumnArray::Int64(vec![])]);
    assert!(matches!(wrong_type, Err(BackupError::BatchShapeMismatch)));
    let missing = assemble(vec![field(TargetType::Utf8)], vec![]);
    assert!(matches!(missing, Err(BackupError::BatchShapeMismatch)));
}

#[test]
fn channel_capacity_is_two_chunks() {
    assert_eq!(channel_capacity(1000), 2000);
    assert_eq!(channel_capacity(1), 2);
    assert_eq!(channel_capacity(0), 1);
    assert_eq!(channel_capacity(usize::MAX), 0x1fff_ffff);
}

#[test]
fn writer_reacts_to_messages() {
    assert!(matches!(writer_command(None), WriterCommand::AbortPremature));
    assert!(matches!(writer_command(Some(WriteMessage::Finish)), WriterCommand::Publish));
    assert!(matches!(writer_command(Some(WriteMessage::Error)), WriterCommand::Abort));
    assert!(matches!(
        writer_flow(&WriterCommand::AbortPremature, Ok(())),
        WriterFlow::Stop(Err(BackupError::PrematureEndOfStream))
    ));
    assert!(matches!(writer_flow(&WriterCommand::Abort, Ok(())), WriterFlow::Stop(Ok(()))));
    assert!(matches!(writer_flow(&WriterCommand::Publish, Ok(())), WriterFlow::Stop(Ok(()))));
    assert!(matches!(
        writer_flow(&WriterCommand::Publish, Err(BackupError::WriteError(String::from("disk")))),
        WriterFlow::AbortThenStop(BackupError::WriteError(_))
    ));
    assert!(matches!(
        setup_flow(Err(BackupError::WriteError(String::from("disk")))),
        WriterFlow::AbortThenStop(_)
    ));
}

#[test]
fn non_nullable_null_aborts_the_table() {
    let mut scan = TableScan::new(vec![descriptor("n", SourceType::Long, false, false)], 1000);
    let mut sent: Vec<WriteMessage> = Vec::new();
    let mut read: Result<(), BackupError> = Ok(());
    for i in 1..=7i64 {
        let v = if i == 7 { Value::Null } else { Value::Int(i) };
        match scan.push_row(vec![v]) {
            Ok(Some(b)) => sent.push(WriteMessage::Chunk(b)),
            Ok(None) => {}
            Err(e) => {
                sent.push(WriteMessage::Error);
                read = Err(e);
                break;
            }
        }
    }
    assert_eq!(sent.len(), 1);
    let command = writer_command(sent.pop());
    assert!(matches!(command, WriterCommand::Abort));
    assert!(matches!(writer_flow(&command, Ok(())), WriterFlow::Stop(Ok(()))));
    let abort = TableBackup::after_removal(RemoveOutcome::NotFound)
        .and(TableBackup::after_removal(RemoveOutcome::NotFound));
    let r = TableBackup::settle(read, Some(abort));
    assert!(matches!(r, Err(BackupError::NonNullableNull)));
}

#[test]
fn read_error_after_batches_fails_the_batch() {
    let mut scan = TableScan::new(vec![descriptor("n", SourceType::Long, false, false)], 2);
    let mut chunks = 0;
    for i in 0..5i64 {
        if let Ok(Some(_)) = scan.push_row(vec![Value::Int(i)]) {
            chunks += 1;
        }
    }
    assert_eq!(chunks, 2);
    let read_error = BackupError::ReadError(String::from("B lost its connection"));
    assert!(matches!(writer_command(Some(WriteMessage::Error)), WriterCommand::Abort));
    let outcomes = vec![TaskOutcome::Succeeded, TaskOutcome::Failed(read_error)];
    let mut result = Ok(());
    for o in outcomes {
        if let Some(e) = BatchBackup::on_outcome(o) {
            result = Err(e);
            break;
        }
    }
    assert!(matches!(result, Err(BackupError::ReadError(ref m)) if m == "B lost its connection"));
    assert!(matches!(writer_command(None), WriterCommand::AbortPremature));
}
