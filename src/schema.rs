use vstd::prelude::*;

use crate::error::BackupError;

verus! {

/// The type tag that the source database gives a column.
#[derive(Clone, Copy, Debug, PartialEq, Eq, Structural)]
pub enum SourceType {
    Decimal,
    Tiny,
    Short,
    Long,
    Float,
    Double,
    Null,
    Timestamp,
    LongLong,
    Int24,
    Date,
    Time,
    DateTime,
    Year,
    NewDate,
    VarChar,
    Bit,
    Timestamp2,
    DateTime2,
    Time2,
    TypedArray,
    Vector,
    Unknown,
    Json,
    NewDecimal,
    EnumOf,
    SetOf,
    TinyBlob,
    MediumBlob,
    LongBlob,
    Blob,
    VarString,
    FixedString,
    Geometry,
}

/// The columnar logical types that a column can be written as.
#[derive(Clone, Copy, Debug, PartialEq, Eq, Structural)]
pub enum TargetType {
    Utf8,
    Int64,
    UInt64,
    Float32,
    /// A 128-bit decimal of precision `DECIMAL_PRECISION` and scale `DECIMAL_SCALE`.
    Decimal128,
    /// Signed days since 1970-01-01.
    Date32,
    /// Microseconds since 1970-01-01T00:00:00, with no time zone.
    TimestampMicros,
}

/// Precision of every decimal column.
pub const DECIMAL_PRECISION: u8 = 19;

/// Scale of every decimal column: mantissas count hundredths.
pub const DECIMAL_SCALE: u32 = 2;

/// The mapping from source types to columnar types; `None` where there is none.
pub open spec fn target_of(source: SourceType, unsigned: bool) -> Option<TargetType> {
    match source {
        SourceType::VarString => Some(TargetType::Utf8),
        SourceType::Long | SourceType::LongLong => if unsigned {
            Some(TargetType::UInt64)
        } else {
            Some(TargetType::Int64)
        },
        SourceType::Float => Some(TargetType::Float32),
        SourceType::NewDecimal => Some(TargetType::Decimal128),
        SourceType::Date => Some(TargetType::Date32),
        SourceType::DateTime => Some(TargetType::TimestampMicros),
        _ => None,
    }
}

/// The metadata of one source column, as the reader receives it.
pub struct SourceColumnMeta {
    pub name: String,
    pub column_type: SourceType,
    pub unsigned: bool,
    /// The source's NOT NULL flag: when set, the column holds no NULL.
    pub not_null: bool,
}

/// One field of a schema: a named, typed, possibly nullable column.
pub struct Field {
    pub name: String,
    pub data_type: TargetType,
    pub nullable: bool,
}

impl Field {
    /// A copy of this field.
    pub fn copy(&self) -> (r: Field)
        ensures
            r == *self,
    {
        let name = self.name.clone();
        proof {
            assert(name == self.name);
        }
        Field { name, data_type: self.data_type, nullable: self.nullable }
    }
}

/// The field that describes a column.
pub open spec fn field_matches(f: Field, d: ColumnData) -> bool {
    &&& f.name@ == d.spec_name()
    &&& f.data_type == d.spec_arrow_type()
    &&& f.nullable == d.spec_nullable()
}

/// The descriptor of one column: its source metadata and its columnar type.
pub struct ColumnData {
    name: String,
    unsigned: bool,
    nullable: bool,
    column_type: SourceType,
    arrow_type: TargetType,
}

impl ColumnData {
    #[verifier::type_invariant]
    spec fn inv(self) -> bool {
        target_of(self.column_type, self.unsigned) == Some(self.arrow_type)
    }

    /// True when the columnar type is the one that the source type maps to.
    pub open spec fn wf(&self) -> bool {
        target_of(self.spec_column_type(), self.spec_unsigned()) == Some(self.spec_arrow_type())
    }

    pub closed spec fn spec_name(&self) -> Seq<char> {
        self.name@
    }

    pub closed spec fn spec_unsigned(&self) -> bool {
        self.unsigned
    }

    pub closed spec fn spec_nullable(&self) -> bool {
        self.nullable
    }

    pub closed spec fn spec_column_type(&self) -> SourceType {
        self.column_type
    }

    pub closed spec fn spec_arrow_type(&self) -> TargetType {
        self.arrow_type
    }

    /// The columnar type of a source type, or `UnsupportedType`.
    pub fn get_arrow_type(column_type: SourceType, unsigned: bool) -> (r: Result<TargetType, BackupError>)
        ensures
            target_of(column_type, unsigned) is Some ==> r == Ok::<TargetType, BackupError>(
                target_of(column_type, unsigned)->Some_0,
            ),
            target_of(column_type, unsigned) is None ==> r is Err && r->Err_0 is UnsupportedType,
    {
        match column_type {
            SourceType::VarString => Ok(TargetType::Utf8),
            SourceType::Long | SourceType::LongLong => {
                if unsigned {
                    Ok(TargetType::UInt64)
                } else {
                    Ok(TargetType::Int64)
                }
            },
            SourceType::Float => Ok(TargetType::Float32),
            SourceType::NewDecimal => Ok(TargetType::Decimal128),
            SourceType::Date => Ok(TargetType::Date32),
            SourceType::DateTime => Ok(TargetType::TimestampMicros),
            _ => Err(BackupError::UnsupportedType),
        }
    }

    /// A descriptor for a column, or `UnsupportedType` where its type has no mapping.
    pub fn new(name: String, unsigned: bool, nullable: bool, column_type: SourceType) -> (r: Result<ColumnData, BackupError>)
        ensures
            r is Ok <==> target_of(column_type, unsigned) is Some,
            r is Err ==> r->Err_0 is UnsupportedType,
            r is Ok ==> {
                let d = r->Ok_0;
                &&& d.wf()
                &&& d.spec_name() == name@
                &&& d.spec_unsigned() == unsigned
                &&& d.spec_nullable() == nullable
                &&& d.spec_column_type() == column_type
                &&& d.spec_arrow_type() == target_of(column_type, unsigned)->Some_0
            },
    {
        let arrow_type = match ColumnData::get_arrow_type(column_type, unsigned) {
            Ok(t) => t,
            Err(e) => {
                return Err(e);
            },
        };
        Ok(ColumnData { name, unsigned, nullable, column_type, arrow_type })
    }

    /// The descriptor of a source column; nullability is the inverse of its NOT NULL flag.
    pub fn from_meta(meta: SourceColumnMeta) -> (r: Result<ColumnData, BackupError>)
        ensures
            r is Ok <==> target_of(meta.column_type, meta.unsigned) is Some,
            r is Err ==> r->Err_0 is UnsupportedType,
            r is Ok ==> {
                let d = r->Ok_0;
                &&& d.wf()
                &&& d.spec_name() == meta.name@
                &&& d.spec_unsigned() == meta.unsigned
                &&& d.spec_nullable() == !meta.not_null
                &&& d.spec_column_type() == meta.column_type
            },
    {
        ColumnData::new(meta.name, meta.unsigned, !meta.not_null, meta.column_type)
    }

    /// The schema field of this column.
    pub fn get_schema_field(&self) -> (r: Field)
        ensures
            r.name@ == self.spec_name(),
            r.data_type == self.spec_arrow_type(),
            r.nullable == self.spec_nullable(),
    {
        Field { name: self.name.clone(), data_type: self.arrow_type, nullable: self.nullable }
    }

    /// A copy of this descriptor.
    pub fn copy(&self) -> (r: ColumnData)
        ensures
            r == *self,
    {
        proof {
            use_type_invariant(self);
        }
        let name = self.name.clone();
        proof {
            assert(name == self.name);
        }
        ColumnData {
            name,
            unsigned: self.unsigned,
            nullable: self.nullable,
            column_type: self.column_type,
            arrow_type: self.arrow_type,
        }
    }

    pub fn name(&self) -> (r: &String)
        ensures
            r@ == self.spec_name(),
    {
        &self.name
    }

    pub fn unsigned(&self) -> (r: bool)
        ensures
            r == self.spec_unsigned(),
    {
        self.unsigned
    }

    pub fn nullable(&self) -> (r: bool)
        ensures
            r == self.spec_nullable(),
    {
        self.nullable
    }

    pub fn column_type(&self) -> (r: SourceType)
        ensures
            r == self.spec_column_type(),
    {
        self.column_type
    }

    /// The columnar type; a descriptor's type is always the one that its source type maps to.
    pub fn arrow_type(&self) -> (r: TargetType)
        ensures
            r == self.spec_arrow_type(),
            self.wf(),
    {
        proof {
            use_type_invariant(self);
        }
        self.arrow_type
    }
}

/// Every supported source type maps as tabulated, and every other one is refused.
pub proof fn lemma_type_mapping_total(column_type: SourceType, unsigned: bool)
    ensures
        column_type == SourceType::VarString ==> target_of(column_type, unsigned) == Some(TargetType::Utf8),
        (column_type == SourceType::Long || column_type == SourceType::LongLong) ==> target_of(
            column_type,
            unsigned,
        ) == Some(if unsigned { TargetType::UInt64 } else { TargetType::Int64 }),
        column_type == SourceType::Float ==> target_of(column_type, unsigned) == Some(TargetType::Float32),
        column_type == SourceType::NewDecimal ==> target_of(column_type, unsigned) == Some(
            TargetType::Decimal128,
        ),
        column_type == SourceType::Date ==> target_of(column_type, unsigned) == Some(TargetType::Date32),
        column_type == SourceType::DateTime ==> target_of(column_type, unsigned) == Some(
            TargetType::TimestampMicros,
        ),
        !(column_type == SourceType::VarString || column_type == SourceType::Long || column_type
            == SourceType::LongLong || column_type == SourceType::Float || column_type
            == SourceType::NewDecimal || column_type == SourceType::Date || column_type
            == SourceType::DateTime) ==> target_of(column_type, unsigned) is None,
{
}

} // verus!
