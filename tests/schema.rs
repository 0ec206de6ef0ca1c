use easyparquet::error::BackupError;
use easyparquet::schema::{ColumnData, SourceColumnMeta, SourceType, TargetType};

fn known_types() -> Vec<(SourceType, bool, TargetType)> {
    vec![
        (SourceType::VarString, false, TargetType::Utf8),
        (SourceType::Long, true, TargetType::UInt64),
        (SourceType::Long, false, TargetType::Int64),
        (SourceType::LongLong, true, TargetType::UInt64),
        (SourceType::LongLong, false, TargetType::Int64),
        (SourceType::Float, false, TargetType::Float32),
        (SourceType::NewDecimal, false, TargetType::Decimal128),
        (SourceType::NewDecimal, true, TargetType::Decimal128),
        (SourceType::Date, false, TargetType::Date32),
        (SourceType::DateTime, false, TargetType::TimestampMicros),
    ]
}

#[test]
fn get_arrow_type_known() {
    for (column_type, unsigned, expected) in known_types() {
        assert_eq!(ColumnData::get_arrow_type(column_type, unsigned).ok(), Some(expected));
    }
}

#[test]
fn get_arrow_type_unknown() {
    let r = ColumnData::get_arrow_type(SourceType::Bit, false);
    assert!(matches!(r, Err(BackupError::UnsupportedType)));
}

#[test]
fn unsupported_types_are_refused() {
    for t in [SourceType::Bit, SourceType::Double, SourceType::Blob, SourceType::Json, SourceType::Time] {
        assert!(matches!(ColumnData::get_arrow_type(t, true), Err(BackupError::UnsupportedType)));
    }
}

#[test]
fn new_known_types() {
    for (column_type, unsigned, expected) in known_types() {
        let data = match ColumnData::new(String::from("testing"), unsigned, true, column_type) {
            Ok(d) => d,
            Err(_) => panic!("a supported type was refused"),
        };
        assert_eq!(data.name(), "testing");
        assert_eq!(data.unsigned(), unsigned);
        assert!(data.nullable());
        assert_eq!(data.column_type(), column_type);
        assert_eq!(data.arrow_type(), expected);
    }
}

#[test]
fn new_unknown_types() {
    let r = ColumnData::new(String::from("testing"), false, true, SourceType::Bit);
    assert!(matches!(r, Err(BackupError::UnsupportedType)));
}

#[test]
fn get_schema_field() {
    for (column_type, unsigned, expected) in known_types() {
        let data = match ColumnData::new(String::from("testing"), unsigned, true, column_type) {
            Ok(d) => d,
            Err(_) => panic!("a supported type was refused"),
        };
        let field = data.get_schema_field();
        assert_eq!(field.name, "testing");
        assert_eq!(field.data_type, expected);
        assert!(field.nullable);
    }
}

#[test]
fn nullability_is_inverted_from_not_null() {
    for not_null in [true, false] {
        let meta = SourceColumnMeta {
            name: String::from("id"),
            column_type: SourceType::Long,
            unsigned: true,
            not_null,
        };
        let data = match ColumnData::from_meta(meta) {
            Ok(d) => d,
            Err(_) => panic!("a supported type was refused"),
        };
        assert_eq!(data.get_schema_field().nullable, !not_null);
    }
}
