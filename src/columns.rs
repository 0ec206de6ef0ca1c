use vstd::prelude::*;

use vstd::utf8::{decode_utf8, valid_utf8};

use crate::calendar::{
    days_since_epoch, epoch_days, epoch_micros, micros_since_epoch, valid_date, valid_time,
};
use crate::decimal::{decimal_mantissa, decimal_text_mantissa};
use crate::error::BackupError;
use crate::schema::{ColumnData, TargetType};
use crate::value::{tag_of, Value, ValueTag};

verus! {

/// One decoded, non-null cell of a column.
pub enum Datum {
    Text(Seq<char>),
    Int(i64),
    UInt(u64),
    /// An IEEE-754 single-precision bit pattern.
    Float(u32),
    /// A mantissa at scale two.
    Decimal(int),
    /// Days since 1970-01-01.
    Date(int),
    /// Microseconds since 1970-01-01T00:00:00.
    Timestamp(int),
}

/// What a non-null cell decodes to in a column of type `target`, or the error
/// that it fails with.
pub open spec fn decode_value(target: TargetType, v: Value) -> Result<Datum, BackupError> {
    match (target, v) {
        (TargetType::Utf8, Value::Bytes(b)) => if valid_utf8(b@) {
            Ok(Datum::Text(decode_utf8(b@)))
        } else {
            Err(BackupError::InvalidEncoding)
        },
        (TargetType::Int64, Value::Int(i)) => Ok(Datum::Int(i)),
        (TargetType::UInt64, Value::Int(i)) => Ok(Datum::UInt(i as u64)),
        (TargetType::Float32, Value::Float(f)) => Ok(Datum::Float(f)),
        (TargetType::Decimal128, Value::Bytes(b)) => if valid_utf8(b@) && decimal_text_mantissa(
            decode_utf8(b@),
        ) is Some {
            Ok(Datum::Decimal(decimal_text_mantissa(decode_utf8(b@))->Some_0))
        } else {
            Err(BackupError::DecimalParse)
        },
        (TargetType::Date32, Value::Date(y, m, d, _, _, _, _)) => if valid_date(
            y as int,
            m as int,
            d as int,
        ) {
            Ok(Datum::Date(epoch_days(y as int, m as int, d as int)))
        } else {
            Err(BackupError::InvalidDate)
        },
        (TargetType::TimestampMicros, Value::Date(y, m, d, h, mi, s, us)) => if valid_date(
            y as int,
            m as int,
            d as int,
        ) && valid_time(h as int, mi as int, s as int, us as int) {
            Ok(
                Datum::Timestamp(
                    epoch_micros(y as int, m as int, d as int, h as int, mi as int, s as int, us as int),
                ),
            )
        } else {
            Err(BackupError::InvalidDateTime)
        },
        _ => Err(BackupError::TypeMismatch { expected: target, got: tag_of(v) }),
    }
}

/// The effect of pushing a non-null value: the decoded cell is appended, or the
/// decoding error is returned and the cells stay as they were.
pub open spec fn push_value_outcome(
    target: TargetType,
    v: Value,
    before: Seq<Option<Datum>>,
    after: Seq<Option<Datum>>,
    r: Result<(), BackupError>,
) -> bool {
    match decode_value(target, v) {
        Ok(d) => r is Ok && after == before.push(Some(d)),
        Err(e) => r == Err::<(), BackupError>(e) && after == before,
    }
}

pub open spec fn lift_text(o: Option<String>) -> Option<Datum> {
    match o {
        Some(s) => Some(Datum::Text(s@)),
        None => None,
    }
}

pub open spec fn lift_int(o: Option<i64>) -> Option<Datum> {
    match o {
        Some(x) => Some(Datum::Int(x)),
        None => None,
    }
}

pub open spec fn lift_uint(o: Option<u64>) -> Option<Datum> {
    match o {
        Some(x) => Some(Datum::UInt(x)),
        None => None,
    }
}

pub open spec fn lift_float(o: Option<u32>) -> Option<Datum> {
    match o {
        Some(x) => Some(Datum::Float(x)),
        None => None,
    }
}

pub open spec fn lift_decimal(o: Option<i128>) -> Option<Datum> {
    match o {
        Some(x) => Some(Datum::Decimal(x as int)),
        None => None,
    }
}

pub open spec fn lift_date(o: Option<i32>) -> Option<Datum> {
    match o {
        Some(x) => Some(Datum::Date(x as int)),
        None => None,
    }
}

pub open spec fn lift_timestamp(o: Option<i64>) -> Option<Datum> {
    match o {
        Some(x) => Some(Datum::Timestamp(x as int)),
        None => None,
    }
}

/// A finished, immutable column: one slot per pushed cell, `None` for null.
pub enum ColumnArray {
    Utf8(Vec<Option<String>>),
    Int64(Vec<Option<i64>>),
    UInt64(Vec<Option<u64>>),
    Float32(Vec<Option<u32>>),
    Decimal128(Vec<Option<i128>>),
    Date32(Vec<Option<i32>>),
    TimestampMicros(Vec<Option<i64>>),
}

impl ColumnArray {
    pub open spec fn cells(&self) -> Seq<Option<Datum>> {
        match self {
            ColumnArray::Utf8(v) => Seq::new(v@.len(), |i: int| lift_text(v@[i])),
            ColumnArray::Int64(v) => Seq::new(v@.len(), |i: int| lift_int(v@[i])),
            ColumnArray::UInt64(v) => Seq::new(v@.len(), |i: int| lift_uint(v@[i])),
            ColumnArray::Float32(v) => Seq::new(v@.len(), |i: int| lift_float(v@[i])),
            ColumnArray::Decimal128(v) => Seq::new(v@.len(), |i: int| lift_decimal(v@[i])),
            ColumnArray::Date32(v) => Seq::new(v@.len(), |i: int| lift_date(v@[i])),
            ColumnArray::TimestampMicros(v) => Seq::new(v@.len(), |i: int| lift_timestamp(v@[i])),
        }
    }

    pub open spec fn target_type(&self) -> TargetType {
        match self {
            ColumnArray::Utf8(_) => TargetType::Utf8,
            ColumnArray::Int64(_) => TargetType::Int64,
            ColumnArray::UInt64(_) => TargetType::UInt64,
            ColumnArray::Float32(_) => TargetType::Float32,
            ColumnArray::Decimal128(_) => TargetType::Decimal128,
            ColumnArray::Date32(_) => TargetType::Date32,
            ColumnArray::TimestampMicros(_) => TargetType::TimestampMicros,
        }
    }

    /// The columnar type of this array.
    pub fn data_type(&self) -> (r: TargetType)
        ensures
            r == self.target_type(),
    {
        match self {
            ColumnArray::Utf8(_) => TargetType::Utf8,
            ColumnArray::Int64(_) => TargetType::Int64,
            ColumnArray::UInt64(_) => TargetType::UInt64,
            ColumnArray::Float32(_) => TargetType::Float32,
            ColumnArray::Decimal128(_) => TargetType::Decimal128,
            ColumnArray::Date32(_) => TargetType::Date32,
            ColumnArray::TimestampMicros(_) => TargetType::TimestampMicros,
        }
    }

    /// The number of slots, nulls included.
    pub fn len(&self) -> (r: usize)
        ensures
            r == self.cells().len(),
    {
        match self {
            ColumnArray::Utf8(v) => v.len(),
            ColumnArray::Int64(v) => v.len(),
            ColumnArray::UInt64(v) => v.len(),
            ColumnArray::Float32(v) => v.len(),
            ColumnArray::Decimal128(v) => v.len(),
            ColumnArray::Date32(v) => v.len(),
            ColumnArray::TimestampMicros(v) => v.len(),
        }
    }
}

/// Relies on std's `String::from_utf8`, which fails exactly on bytes that are
/// not valid UTF-8 and otherwise keeps the bytes as the string's encoding.
#[verifier::external_body]
fn utf8_string(bytes: Vec<u8>) -> (r: Option<String>)
    ensures
        r is Some <==> valid_utf8(bytes@),
        r is Some ==> r->Some_0@ == decode_utf8(bytes@),
{
    match String::from_utf8(bytes) {
        Ok(s) => Some(s),
        Err(_) => None,
    }
}

/// Builds a text column; cells arrive as UTF-8 bytes.
pub struct StringColumnBuilder {
    values: Vec<Option<String>>,
}

impl StringColumnBuilder {
    pub closed spec fn cells(&self) -> Seq<Option<Datum>> {
        Seq::new(self.values@.len(), |i: int| lift_text(self.values@[i]))
    }

    pub fn new() -> (r: StringColumnBuilder)
        ensures
            r.cells() == Seq::<Option<Datum>>::empty(),
    {
        let r = StringColumnBuilder { values: Vec::new() };
        assert(r.cells() =~= Seq::<Option<Datum>>::empty());
        r
    }

    pub fn len(&self) -> (r: usize)
        ensures
            r == self.cells().len(),
    {
        self.values.len()
    }

    pub fn push_null(&mut self)
        ensures
            final(self).cells() == old(self).cells().push(None),
    {
        self.values.push(None);
        assert(self.cells() =~= old(self).cells().push(None));
    }

    pub fn push_value(&mut self, value: Value) -> (r: Result<(), BackupError>)
        ensures
            push_value_outcome(TargetType::Utf8, value, old(self).cells(), final(self).cells(), r),
    {
        match value {
            Value::Bytes(bytes) => match utf8_string(bytes) {
                Some(s) => {
                    self.values.push(Some(s));
                    assert(self.cells() =~= old(self).cells().push(lift_text(Some(s))));
                    Ok(())
                },
                None => Err(BackupError::InvalidEncoding),
            },
            other => Err(BackupError::TypeMismatch { expected: TargetType::Utf8, got: other.tag() }),
        }
    }

    pub fn finish(self) -> (r: ColumnArray)
        ensures
            r.cells() == self.cells(),
            r.target_type() == TargetType::Utf8,
    {
        ColumnArray::Utf8(self.values)
    }
}

/// Builds a signed 64-bit integer column.
pub struct Int64ColumnBuilder {
    values: Vec<Option<i64>>,
}

impl Int64ColumnBuilder {
    pub closed spec fn cells(&self) -> Seq<Option<Datum>> {
        Seq::new(self.values@.len(), |i: int| lift_int(self.values@[i]))
    }

    pub fn new() -> (r: Int64ColumnBuilder)
        ensures
            r.cells() == Seq::<Option<Datum>>::empty(),
    {
        let r = Int64ColumnBuilder { values: Vec::new() };
        assert(r.cells() =~= Seq::<Option<Datum>>::empty());
        r
    }

    pub fn len(&self) -> (r: usize)
        ensures
            r == self.cells().len(),
    {
        self.values.len()
    }

    pub fn push_null(&mut self)
        ensures
            final(self).cells() == old(self).cells().push(None),
    {
        self.values.push(None);
        assert(self.cells() =~= old(self).cells().push(None));
    }

    pub fn push_value(&mut self, value: Value) -> (r: Result<(), BackupError>)
        ensures
            push_value_outcome(TargetType::Int64, value, old(self).cells(), final(self).cells(), r),
    {
        match value {
            Value::Int(x) => {
                self.values.push(Some(x));
                assert(self.cells() =~= old(self).cells().push(lift_int(Some(x))));
                Ok(())
            },
            other => Err(BackupError::TypeMismatch { expected: TargetType::Int64, got: other.tag() }),
        }
    }

    pub fn finish(self) -> (r: ColumnArray)
        ensures
            r.cells() == self.cells(),
            r.target_type() == TargetType::Int64,
    {
        ColumnArray::Int64(self.values)
    }
}

/// Builds an unsigned 64-bit integer column. The driver carries unsigned
/// values in a signed integer, whose bit pattern is kept.
pub struct Uint64ColumnBuilder {
    values: Vec<Option<u64>>,
}

impl Uint64ColumnBuilder {
    pub closed spec fn cells(&self) -> Seq<Option<Datum>> {
        Seq::new(self.values@.len(), |i: int| lift_uint(self.values@[i]))
    }

    pub fn new() -> (r: Uint64ColumnBuilder)
        ensures
            r.cells() == Seq::<Option<Datum>>::empty(),
    {
        let r = Uint64ColumnBuilder { values: Vec::new() };
        assert(r.cells() =~= Seq::<Option<Datum>>::empty());
        r
    }

    pub fn len(&self) -> (r: usize)
        ensures
            r == self.cells().len(),
    {
        self.values.len()
    }

    pub fn push_null(&mut self)
        ensures
            final(self).cells() == old(self).cells().push(None),
    {
        self.values.push(None);
        assert(self.cells() =~= old(self).cells().push(None));
    }

    pub fn push_value(&mut self, value: Value) -> (r: Result<(), BackupError>)
        ensures
            push_value_outcome(TargetType::UInt64, value, old(self).cells(), final(self).cells(), r),
    {
        match value {
            Value::Int(x) => {
                let u = x as u64;
                self.values.push(Some(u));
                assert(self.cells() =~= old(self).cells().push(lift_uint(Some(u))));
                Ok(())
            },
            other => Err(BackupError::TypeMismatch { expected: TargetType::UInt64, got: other.tag() }),
        }
    }

    pub fn finish(self) -> (r: ColumnArray)
        ensures
            r.cells() == self.cells(),
            r.target_type() == TargetType::UInt64,
    {
        ColumnArray::UInt64(self.values)
    }
}

/// Builds a single-precision float column, stored bit for bit.
pub struct FloatColumnBuilder {
    values: Vec<Option<u32>>,
}

impl FloatColumnBuilder {
    pub closed spec fn cells(&self) -> Seq<Option<Datum>> {
        Seq::new(self.values@.len(), |i: int| lift_float(self.values@[i]))
    }

    pub fn new() -> (r: FloatColumnBuilder)
        ensures
            r.cells() == Seq::<Option<Datum>>::empty(),
    {
        let r = FloatColumnBuilder { values: Vec::new() };
        assert(r.cells() =~= Seq::<Option<Datum>>::empty());
        r
    }

    pub fn len(&self) -> (r: usize)
        ensures
            r == self.cells().len(),
    {
        self.values.len()
    }

    pub fn push_null(&mut self)
        ensures
            final(self).cells() == old(self).cells().push(None),
    {
        self.values.push(None);
        assert(self.cells() =~= old(self).cells().push(None));
    }

    pub fn push_value(&mut self, value: Value) -> (r: Result<(), BackupError>)
        ensures
            push_value_outcome(TargetType::Float32, value, old(self).cells(), final(self).cells(), r),
    {
        match value {
            Value::Float(bits) => {
                self.values.push(Some(bits));
                assert(self.cells() =~= old(self).cells().push(lift_float(Some(bits))));
                Ok(())
            },
            other => Err(BackupError::TypeMismatch { expected: TargetType::Float32, got: other.tag() }),
        }
    }

    pub fn finish(self) -> (r: ColumnArray)
        ensures
            r.cells() == self.cells(),
            r.target_type() == TargetType::Float32,
    {
        ColumnArray::Float32(self.values)
    }
}

/// Builds a decimal column at scale two; cells arrive as decimal literals.
pub struct DecimalColumnBuilder {
    values: Vec<Option<i128>>,
}

impl DecimalColumnBuilder {
    pub closed spec fn cells(&self) -> Seq<Option<Datum>> {
        Seq::new(self.values@.len(), |i: int| lift_decimal(self.values@[i]))
    }

    pub fn new() -> (r: DecimalColumnBuilder)
        ensures
            r.cells() == Seq::<Option<Datum>>::empty(),
    {
        let r = DecimalColumnBuilder { values: Vec::new() };
        assert(r.cells() =~= Seq::<Option<Datum>>::empty());
        r
    }

    pub fn len(&self) -> (r: usize)
        ensures
            r == self.cells().len(),
    {
        self.values.len()
    }

    pub fn push_null(&mut self)
        ensures
            final(self).cells() == old(self).cells().push(None),
    {
        self.values.push(None);
        assert(self.cells() =~= old(self).cells().push(None));
    }

    pub fn push_value(&mut self, value: Value) -> (r: Result<(), BackupError>)
        ensures
            push_value_outcome(TargetType::Decimal128, value, old(self).cells(), final(self).cells(), r),
    {
        match value {
            Value::Bytes(bytes) => {
                let text = match utf8_string(bytes) {
                    Some(s) => s,
                    None => {
                        return Err(BackupError::DecimalParse);
                    },
                };
                match decimal_mantissa(text.as_str()) {
                    Some(m) => {
                        self.values.push(Some(m));
                        assert(self.cells() =~= old(self).cells().push(lift_decimal(Some(m))));
                        Ok(())
                    },
                    None => Err(BackupError::DecimalParse),
                }
            },
            other => Err(BackupError::TypeMismatch { expected: TargetType::Decimal128, got: other.tag() }),
        }
    }

    pub fn finish(self) -> (r: ColumnArray)
        ensures
            r.cells() == self.cells(),
            r.target_type() == TargetType::Decimal128,
    {
        ColumnArray::Decimal128(self.values)
    }
}

/// Builds a date column of days since 1970-01-01; the time fields of a date
/// cell are ignored.
pub struct DateColumnBuilder {
    values: Vec<Option<i32>>,
}

impl DateColumnBuilder {
    pub closed spec fn cells(&self) -> Seq<Option<Datum>> {
        Seq::new(self.values@.len(), |i: int| lift_date(self.values@[i]))
    }

    pub fn new() -> (r: DateColumnBuilder)
        ensures
            r.cells() == Seq::<Option<Datum>>::empty(),
    {
        let r = DateColumnBuilder { values: Vec::new() };
        assert(r.cells() =~= Seq::<Option<Datum>>::empty());
        r
    }

    pub fn len(&self) -> (r: usize)
        ensures
            r == self.cells().len(),
    {
        self.values.len()
    }

    pub fn push_null(&mut self)
        ensures
            final(self).cells() == old(self).cells().push(None),
    {
        self.values.push(None);
        assert(self.cells() =~= old(self).cells().push(None));
    }

    pub fn push_value(&mut self, value: Value) -> (r: Result<(), BackupError>)
        ensures
            push_value_outcome(TargetType::Date32, value, old(self).cells(), final(self).cells(), r),
    {
        match value {
            Value::Date(year, month, day, _, _, _, _) => match days_since_epoch(year, month, day) {
                Some(days) => {
                    self.values.push(Some(days));
                    assert(self.cells() =~= old(self).cells().push(lift_date(Some(days))));
                    Ok(())
                },
                None => Err(BackupError::InvalidDate),
            },
            other => Err(BackupError::TypeMismatch { expected: TargetType::Date32, got: other.tag() }),
        }
    }

    pub fn finish(self) -> (r: ColumnArray)
        ensures
            r.cells() == self.cells(),
            r.target_type() == TargetType::Date32,
    {
        ColumnArray::Date32(self.values)
    }
}

/// Builds a timestamp column of microseconds since 1970-01-01T00:00:00.
pub struct DateTimeColumnBuilder {
    values: Vec<Option<i64>>,
}

impl DateTimeColumnBuilder {
    pub closed spec fn cells(&self) -> Seq<Option<Datum>> {
        Seq::new(self.values@.len(), |i: int| lift_timestamp(self.values@[i]))
    }

    pub fn new() -> (r: DateTimeColumnBuilder)
        ensures
            r.cells() == Seq::<Option<Datum>>::empty(),
    {
        let r = DateTimeColumnBuilder { values: Vec::new() };
        assert(r.cells() =~= Seq::<Option<Datum>>::empty());
        r
    }

    pub fn len(&self) -> (r: usize)
        ensures
            r == self.cells().len(),
    {
        self.values.len()
    }

    pub fn push_null(&mut self)
        ensures
            final(self).cells() == old(self).cells().push(None),
    {
        self.values.push(None);
        assert(self.cells() =~= old(self).cells().push(None));
    }

    pub fn push_value(&mut self, value: Value) -> (r: Result<(), BackupError>)
        ensures
            push_value_outcome(TargetType::TimestampMicros, value, old(self).cells(), final(self).cells(), r),
    {
        match value {
            Value::Date(year, month, day, hour, minute, second, micro) => match micros_since_epoch(
                year,
                month,
                day,
                hour,
                minute,
                second,
                micro,
            ) {
                Some(t) => {
                    self.values.push(Some(t));
                    assert(self.cells() =~= old(self).cells().push(lift_timestamp(Some(t))));
                    Ok(())
                },
                None => Err(BackupError::InvalidDateTime),
            },
            other => Err(
                BackupError::TypeMismatch { expected: TargetType::TimestampMicros, got: other.tag() },
            ),
        }
    }

    pub fn finish(self) -> (r: ColumnArray)
        ensures
            r.cells() == self.cells(),
            r.target_type() == TargetType::TimestampMicros,
    {
        ColumnArray::TimestampMicros(self.values)
    }
}

/// The effect of pushing any cell, null or not, into a column with the given
/// type and nullability.
pub open spec fn push_cell_outcome(
    target: TargetType,
    nullable: bool,
    v: Value,
    before: Seq<Option<Datum>>,
    after: Seq<Option<Datum>>,
    r: Result<(), BackupError>,
) -> bool {
    if v is Null {
        if nullable {
            r is Ok && after == before.push(None)
        } else {
            r == Err::<(), BackupError>(BackupError::NonNullableNull) && after == before
        }
    } else {
        push_value_outcome(target, v, before, after, r)
    }
}

/// A column's descriptor together with the builder that fills it.
pub struct ColumnHolder<B> {
    data: ColumnData,
    builder: B,
}

impl<B> ColumnHolder<B> {
    pub closed spec fn spec_data(&self) -> ColumnData {
        self.data
    }

    pub closed spec fn spec_builder(&self) -> B {
        self.builder
    }

    pub fn new(data: ColumnData, builder: B) -> (r: ColumnHolder<B>)
        ensures
            r.spec_data() == data,
            r.spec_builder() == builder,
    {
        ColumnHolder { data, builder }
    }

    /// The descriptor of the column.
    pub fn data(&self) -> (r: &ColumnData)
        ensures
            *r == self.spec_data(),
    {
        &self.data
    }
}

/// A column under construction, one variant per columnar type.
pub enum Column {
    String(ColumnHolder<StringColumnBuilder>),
    Int64(ColumnHolder<Int64ColumnBuilder>),
    Uint64(ColumnHolder<Uint64ColumnBuilder>),
    Float(ColumnHolder<FloatColumnBuilder>),
    Decimal(ColumnHolder<DecimalColumnBuilder>),
    Date(ColumnHolder<DateColumnBuilder>),
    DateTime(ColumnHolder<DateTimeColumnBuilder>),
}

impl Column {
    pub open spec fn descriptor(&self) -> ColumnData {
        match self {
            Column::String(h) => h.spec_data(),
            Column::Int64(h) => h.spec_data(),
            Column::Uint64(h) => h.spec_data(),
            Column::Float(h) => h.spec_data(),
            Column::Decimal(h) => h.spec_data(),
            Column::Date(h) => h.spec_data(),
            Column::DateTime(h) => h.spec_data(),
        }
    }

    pub open spec fn cells(&self) -> Seq<Option<Datum>> {
        match self {
            Column::String(h) => h.spec_builder().cells(),
            Column::Int64(h) => h.spec_builder().cells(),
            Column::Uint64(h) => h.spec_builder().cells(),
            Column::Float(h) => h.spec_builder().cells(),
            Column::Decimal(h) => h.spec_builder().cells(),
            Column::Date(h) => h.spec_builder().cells(),
            Column::DateTime(h) => h.spec_builder().cells(),
        }
    }

    /// The columnar type that the variant builds.
    pub open spec fn builder_type(&self) -> TargetType {
        match self {
            Column::String(_) => TargetType::Utf8,
            Column::Int64(_) => TargetType::Int64,
            Column::Uint64(_) => TargetType::UInt64,
            Column::Float(_) => TargetType::Float32,
            Column::Decimal(_) => TargetType::Decimal128,
            Column::Date(_) => TargetType::Date32,
            Column::DateTime(_) => TargetType::TimestampMicros,
        }
    }

    /// The variant builds the descriptor's columnar type.
    pub open spec fn wf(&self) -> bool {
        self.descriptor().wf() && self.builder_type() == self.descriptor().spec_arrow_type()
    }

    /// An empty column for a descriptor, with the builder of its columnar type.
    pub fn from_data(data: ColumnData) -> (r: Result<Column, BackupError>)
        ensures
            r is Ok,
            r->Ok_0.wf(),
            r->Ok_0.descriptor() == data,
            r->Ok_0.cells() == Seq::<Option<Datum>>::empty(),
    {
        match data.arrow_type() {
            TargetType::Utf8 => Ok(Column::String(ColumnHolder::new(data, StringColumnBuilder::new()))),
            TargetType::Int64 => Ok(Column::Int64(ColumnHolder::new(data, Int64ColumnBuilder::new()))),
            TargetType::UInt64 => Ok(Column::Uint64(ColumnHolder::new(data, Uint64ColumnBuilder::new()))),
            TargetType::Float32 => Ok(Column::Float(ColumnHolder::new(data, FloatColumnBuilder::new()))),
            TargetType::Decimal128 => Ok(
                Column::Decimal(ColumnHolder::new(data, DecimalColumnBuilder::new())),
            ),
            TargetType::Date32 => Ok(Column::Date(ColumnHolder::new(data, DateColumnBuilder::new()))),
            TargetType::TimestampMicros => Ok(
                Column::DateTime(ColumnHolder::new(data, DateTimeColumnBuilder::new())),
            ),
        }
    }

    /// The number of cells pushed so far.
    pub fn len(&self) -> (r: usize)
        ensures
            r == self.cells().len(),
    {
        match self {
            Column::String(h) => h.builder.len(),
            Column::Int64(h) => h.builder.len(),
            Column::Uint64(h) => h.builder.len(),
            Column::Float(h) => h.builder.len(),
            Column::Decimal(h) => h.builder.len(),
            Column::Date(h) => h.builder.len(),
            Column::DateTime(h) => h.builder.len(),
        }
    }

    /// Ends the column: an immutable array of the cells pushed, of the
    /// column's type.
    pub fn finish(self) -> (r: ColumnArray)
        ensures
            r.cells() == self.cells(),
            r.target_type() == self.builder_type(),
    {
        match self {
            Column::String(h) => h.builder.finish(),
            Column::Int64(h) => h.builder.finish(),
            Column::Uint64(h) => h.builder.finish(),
            Column::Float(h) => h.builder.finish(),
            Column::Decimal(h) => h.builder.finish(),
            Column::Date(h) => h.builder.finish(),
            Column::DateTime(h) => h.builder.finish(),
        }
    }

    /// Pushes one cell. A NULL goes in as a null slot where the column is
    /// nullable and fails `NonNullableNull` otherwise; any other value is
    /// decoded for the column's type, and a failure leaves the column as it was.
    pub fn push(column: &mut Column, value: Value) -> (r: Result<(), BackupError>)
        requires
            old(column).wf(),
        ensures
            final(column).wf(),
            final(column).descriptor() == old(column).descriptor(),
            push_cell_outcome(
                old(column).descriptor().spec_arrow_type(),
                old(column).descriptor().spec_nullable(),
                value,
                old(column).cells(),
                final(column).cells(),
                r,
            ),
    {
        if let Value::Null = value {
            let nullable = match column {
                Column::String(h) => h.data.nullable(),
                Column::Int64(h) => h.data.nullable(),
                Column::Uint64(h) => h.data.nullable(),
                Column::Float(h) => h.data.nullable(),
                Column::Decimal(h) => h.data.nullable(),
                Column::Date(h) => h.data.nullable(),
                Column::DateTime(h) => h.data.nullable(),
            };
            if !nullable {
                return Err(BackupError::NonNullableNull);
            }
            match column {
                Column::String(h) => h.builder.push_null(),
                Column::Int64(h) => h.builder.push_null(),
                Column::Uint64(h) => h.builder.push_null(),
                Column::Float(h) => h.builder.push_null(),
                Column::Decimal(h) => h.builder.push_null(),
                Column::Date(h) => h.builder.push_null(),
                Column::DateTime(h) => h.builder.push_null(),
            }
            return Ok(());
        }
        match column {
            Column::String(h) => h.builder.push_value(value),
            Column::Int64(h) => h.builder.push_value(value),
            Column::Uint64(h) => h.builder.push_value(value),
            Column::Float(h) => h.builder.push_value(value),
            Column::Decimal(h) => h.builder.push_value(value),
            Column::Date(h) => h.builder.push_value(value),
            Column::DateTime(h) => h.builder.push_value(value),
        }
    }
}

/// The runtime tags that a builder of type `target` accepts.
pub open spec fn accepts(target: TargetType, tag: ValueTag) -> bool {
    match target {
        TargetType::Utf8 | TargetType::Decimal128 => tag == ValueTag::Bytes,
        TargetType::Int64 | TargetType::UInt64 => tag == ValueTag::Int,
        TargetType::Float32 => tag == ValueTag::Float,
        TargetType::Date32 | TargetType::TimestampMicros => tag == ValueTag::Date,
    }
}

/// A successful push adds exactly one cell and a failed one adds none.
pub proof fn lemma_push_length(
    target: TargetType,
    nullable: bool,
    v: Value,
    before: Seq<Option<Datum>>,
    after: Seq<Option<Datum>>,
    r: Result<(), BackupError>,
)
    requires
        push_cell_outcome(target, nullable, v, before, after, r),
    ensures
        r is Ok ==> after.len() == before.len() + 1,
        r is Err ==> after.len() == before.len(),
{
}

/// After N successful pushes, values or nulls, into an empty column, the
/// column holds N cells (and `finish` keeps them all).
pub proof fn lemma_round_trip_length(
    target: TargetType,
    nullable: bool,
    values: Seq<Value>,
    states: Seq<Seq<Option<Datum>>>,
    results: Seq<Result<(), BackupError>>,
)
    requires
        states.len() == values.len() + 1,
        results.len() == values.len(),
        states[0].len() == 0,
        forall|i: int|
            0 <= i < values.len() ==> #[trigger] push_cell_outcome(
                target,
                nullable,
                values[i],
                states[i],
                states[i + 1],
                results[i],
            ),
        forall|i: int| 0 <= i < values.len() ==> #[trigger] results[i] is Ok,
    ensures
        states[values.len() as int].len() == values.len(),
    decreases values.len(),
{
    let n = values.len() as int;
    if n > 0 {
        lemma_round_trip_length(
            target,
            nullable,
            values.take(n - 1),
            states.take(n),
            results.take(n - 1),
        );
        assert(push_cell_outcome(target, nullable, values[n - 1], states[n - 1], states[n], results[n - 1]));
        assert(results[n - 1] is Ok);
    }
}

/// A value whose runtime tag the builder does not take fails `TypeMismatch`,
/// naming the builder's type and the value's tag, and adds no cell.
pub proof fn lemma_typed_push_discipline(
    target: TargetType,
    v: Value,
    before: Seq<Option<Datum>>,
    after: Seq<Option<Datum>>,
    r: Result<(), BackupError>,
)
    requires
        !accepts(target, tag_of(v)),
        push_value_outcome(target, v, before, after, r),
    ensures
        r == Err::<(), BackupError>(BackupError::TypeMismatch { expected: target, got: tag_of(v) }),
        after == before,
{
}

/// In a column that does not allow nulls, a NULL fails `NonNullableNull` and
/// the column keeps its length.
pub proof fn lemma_non_nullable_null(
    target: TargetType,
    before: Seq<Option<Datum>>,
    after: Seq<Option<Datum>>,
    r: Result<(), BackupError>,
)
    requires
        push_cell_outcome(target, false, Value::Null, before, after, r),
    ensures
        r == Err::<(), BackupError>(BackupError::NonNullableNull),
        after.len() == before.len(),
{
}

/// The states of a column along N pushes that all succeeded, from an empty
/// column with descriptor `d`, finished into `array`: the array has N slots.
pub proof fn lemma_column_round_trip(
    d: ColumnData,
    columns: Seq<Column>,
    values: Seq<Value>,
    results: Seq<Result<(), BackupError>>,
    array: ColumnArray,
)
    requires
        columns.len() == values.len() + 1,
        results.len() == values.len(),
        columns[0].cells().len() == 0,
        forall|i: int| 0 <= i < columns.len() ==> (#[trigger] columns[i]).descriptor() == d,
        forall|i: int|
            0 <= i < values.len() ==> #[trigger] push_cell_outcome(
                d.spec_arrow_type(),
                d.spec_nullable(),
                values[i],
                columns[i].cells(),
                columns[i + 1].cells(),
                results[i],
            ),
        forall|i: int| 0 <= i < values.len() ==> #[trigger] results[i] is Ok,
        array.cells() == columns[values.len() as int].cells(),
    ensures
        array.cells().len() == values.len(),
{
    let states = Seq::new(columns.len(), |i: int| columns[i].cells());
    assert forall|i: int| 0 <= i < values.len() implies #[trigger] push_cell_outcome(
        d.spec_arrow_type(),
        d.spec_nullable(),
        values[i],
        states[i],
        states[i + 1],
        results[i],
    ) by {
        assert(push_cell_outcome(
            d.spec_arrow_type(),
            d.spec_nullable(),
            values[i],
            columns[i].cells(),
            columns[i + 1].cells(),
            results[i],
        ));
    }
    lemma_round_trip_length(d.spec_arrow_type(), d.spec_nullable(), values, states, results);
}

} // verus!
