use easyparquet::calendar::{days_since_epoch, micros_since_epoch};
use easyparquet::columns::{
    Column, ColumnArray, DateColumnBuilder, DecimalColumnBuilder, StringColumnBuilder, Uint64ColumnBuilder,
};
use easyparquet::decimal::decimal_mantissa;
use easyparquet::error::BackupError;
use easyparquet::schema::{ColumnData, SourceType, TargetType};
use easyparquet::value::{Value, ValueTag};

fn column(column_type: SourceType, unsigned: bool, nullable: bool) -> Column {
    let data = match ColumnData::new(String::from("c"), unsigned, nullable, column_type) {
        Ok(d) => d,
        Err(_) => panic!("a supported type was refused"),
    };
    match Column::from_data(data) {
        Ok(c) => c,
        Err(_) => panic!("no column for a descriptor"),
    }
}

fn decimals(array: ColumnArray) -> Vec<Option<i128>> {
    match array {
        ColumnArray::Decimal128(v) => v,
        _ => panic!("not a decimal array"),
    }
}

#[test]
fn round_trip_length_counts_values_and_nulls() {
    let mut c = column(SourceType::LongLong, false, true);
    for i in 0..10i64 {
        let v = if i % 3 == 0 { Value::Null } else { Value::Int(i) };
        assert!(Column::push(&mut c, v).is_ok());
    }
    assert_eq!(c.len(), 10);
    let array = c.finish();
    assert_eq!(array.len(), 10);
    assert_eq!(array.data_type(), TargetType::Int64);
    match array {
        ColumnArray::Int64(v) => {
            assert_eq!(v[0], None);
            assert_eq!(v[1], Some(1));
            assert_eq!(v[9], None);
        }
        _ => panic!("not an int array"),
    }
}

#[test]
fn typed_push_discipline() {
    let mut b = StringColumnBuilder::new();
    let r = b.push_value(Value::Int(3));
    assert!(matches!(
        r,
        Err(BackupError::TypeMismatch { expected: TargetType::Utf8, got: ValueTag::Int })
    ));
    assert_eq!(b.len(), 0);
    let mut c = column(SourceType::Date, false, true);
    let r = Column::push(&mut c, Value::Bytes(b"2020-01-01".to_vec()));
    assert!(matches!(
        r,
        Err(BackupError::TypeMismatch { expected: TargetType::Date32, got: ValueTag::Bytes })
    ));
    assert_eq!(c.len(), 0);
}

#[test]
fn non_nullable_null_is_rejected() {
    let mut c = column(SourceType::Long, true, false);
    assert!(Column::push(&mut c, Value::Int(1)).is_ok());
    let r = Column::push(&mut c, Value::Null);
    assert!(matches!(r, Err(BackupError::NonNullableNull)));
    assert_eq!(c.len(), 1);
}

#[test]
fn invalid_utf8_is_rejected() {
    let mut b = StringColumnBuilder::new();
    assert!(matches!(b.push_value(Value::Bytes(vec![0xff, 0xfe])), Err(BackupError::InvalidEncoding)));
    assert!(b.push_value(Value::Bytes("héllo".as_bytes().to_vec())).is_ok());
    match b.finish() {
        ColumnArray::Utf8(v) => assert_eq!(v, vec![Some(String::from("héllo"))]),
        _ => panic!("not a text array"),
    }
}

#[test]
fn unsigned_bit_pattern_is_kept() {
    let mut b = Uint64ColumnBuilder::new();
    for x in [0i64, 1, i64::MAX, i64::MIN, -1] {
        assert!(b.push_value(Value::Int(x)).is_ok());
    }
    match b.finish() {
        ColumnArray::UInt64(v) => assert_eq!(
            v,
            vec![Some(0), Some(1), Some((1u64 << 63) - 1), Some(1u64 << 63), Some(u64::MAX)]
        ),
        _ => panic!("not an unsigned array"),
    }
}

#[test]
fn decimal_rescale_examples() {
    let mut b = DecimalColumnBuilder::new();
    for s in ["1.2", "1.235", "-0.005"] {
        assert!(b.push_value(Value::Bytes(s.as_bytes().to_vec())).is_ok());
    }
    assert_eq!(decimals(b.finish()), vec![Some(120), Some(124), Some(-1)]);
}

#[test]
fn decimal_mantissa_exact_values() {
    assert_eq!(decimal_mantissa("7"), Some(700));
    assert_eq!(decimal_mantissa("0.125"), Some(13));
    assert_eq!(decimal_mantissa("-0.125"), Some(-13));
    assert_eq!(decimal_mantissa("0.124"), Some(12));
    assert_eq!(decimal_mantissa("12.34"), Some(1234));
    assert_eq!(decimal_mantissa("abc"), None);
    assert_eq!(decimal_mantissa("79228162514264337593543950335"), Some(7922816251426433759354395033500));
    assert_eq!(decimal_mantissa("-7922816251426433759354395033.5"), Some(-792281625142643375935439503350));
}

#[test]
fn malformed_decimal_is_rejected() {
    let mut b = DecimalColumnBuilder::new();
    assert!(matches!(b.push_value(Value::Bytes(b"1.2.3".to_vec())), Err(BackupError::DecimalParse)));
    assert!(matches!(b.push_value(Value::Bytes(vec![0xff])), Err(BackupError::DecimalParse)));
    assert_eq!(b.len(), 0);
}

#[test]
fn date_epoch() {
    assert_eq!(days_since_epoch(1970, 1, 1), Some(0));
    assert_eq!(days_since_epoch(1970, 1, 2), Some(1));
    assert_eq!(days_since_epoch(1969, 12, 31), Some(-1));
    assert_eq!(days_since_epoch(2000, 3, 1), Some(11017));
    assert_eq!(days_since_epoch(2023, 2, 29), None);
    assert_eq!(days_since_epoch(2024, 2, 29), Some(19782));
    assert_eq!(days_since_epoch(2024, 13, 1), None);
}

#[test]
fn date_builder_ignores_time_fields() {
    let mut b = DateColumnBuilder::new();
    assert!(b.push_value(Value::Date(1970, 1, 2, 13, 14, 15, 16)).is_ok());
    assert!(matches!(b.push_value(Value::Date(2021, 4, 31, 0, 0, 0, 0)), Err(BackupError::InvalidDate)));
    match b.finish() {
        ColumnArray::Date32(v) => assert_eq!(v, vec![Some(1)]),
        _ => panic!("not a date array"),
    }
}

#[test]
fn datetime_micros() {
    assert_eq!(micros_since_epoch(1970, 1, 1, 0, 0, 0, 0), Some(0));
    assert_eq!(micros_since_epoch(1970, 1, 1, 0, 0, 1, 5), Some(1_000_005));
    assert_eq!(micros_since_epoch(1969, 12, 31, 23, 59, 59, 999_999), Some(-1));
    assert_eq!(micros_since_epoch(2000, 1, 1, 12, 30, 0, 0), Some(946_729_800_000_000));
    assert_eq!(micros_since_epoch(2000, 1, 1, 24, 0, 0, 0), None);
    assert_eq!(micros_since_epoch(2000, 1, 1, 0, 0, 0, 1_000_000), None);
    let mut c = column(SourceType::DateTime, false, true);
    let r = Column::push(&mut c, Value::Date(2000, 1, 1, 0, 60, 0, 0));
    assert!(matches!(r, Err(BackupError::InvalidDateTime)));
}
