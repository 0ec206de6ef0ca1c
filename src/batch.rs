use vstd::prelude::*;

use crate::columns::ColumnArray;
use crate::error::BackupError;
use crate::schema::Field;

verus! {

/// The rows of a list of arrays: the length of the first, or zero for none.
pub open spec fn rows_of(arrays: Seq<ColumnArray>) -> nat {
    if arrays.len() == 0 {
        0
    } else {
        arrays[0].cells().len()
    }
}

/// Arrays fit a schema: one per field, each of its field's type, all of one length.
pub open spec fn fits_schema(schema: Seq<Field>, arrays: Seq<ColumnArray>) -> bool {
    &&& arrays.len() == schema.len()
    &&& forall|i: int| 0 <= i < arrays.len() ==> #[trigger] arrays[i].target_type() == schema[i].data_type
    &&& forall|i: int| 0 <= i < arrays.len() ==> #[trigger] arrays[i].cells().len() == rows_of(arrays)
}

/// Equal-length columns grouped under a schema.
pub struct RecordBatch {
    schema: Vec<Field>,
    columns: Vec<ColumnArray>,
    row_count: usize,
}

impl RecordBatch {
    pub closed spec fn spec_schema(&self) -> Seq<Field> {
        self.schema@
    }

    pub closed spec fn spec_columns(&self) -> Seq<ColumnArray> {
        self.columns@
    }

    pub closed spec fn spec_row_count(&self) -> nat {
        self.row_count as nat
    }

    /// The columns fit the schema and share the row count.
    pub open spec fn wf(&self) -> bool {
        &&& fits_schema(self.spec_schema(), self.spec_columns())
        &&& self.spec_row_count() == rows_of(self.spec_columns())
    }

    /// Groups arrays that are known to fit the schema.
    pub fn from_parts(schema: Vec<Field>, columns: Vec<ColumnArray>) -> (r: RecordBatch)
        requires
            fits_schema(schema@, columns@),
        ensures
            r.wf(),
            r.spec_schema() == schema@,
            r.spec_columns() == columns@,
    {
        let row_count: usize = if columns.len() == 0 {
            0
        } else {
            columns[0].len()
        };
        RecordBatch { schema, columns, row_count }
    }

    /// The number of rows.
    pub fn num_rows(&self) -> (r: usize)
        ensures
            r == self.spec_row_count(),
    {
        self.row_count
    }

    pub fn schema(&self) -> (r: &Vec<Field>)
        ensures
            r@ == self.spec_schema(),
    {
        &self.schema
    }

    pub fn columns(&self) -> (r: &Vec<ColumnArray>)
        ensures
            r@ == self.spec_columns(),
    {
        &self.columns
    }

    /// The schema and the columns, given up by the batch.
    pub fn into_parts(self) -> (r: (Vec<Field>, Vec<ColumnArray>))
        ensures
            r.0@ == self.spec_schema(),
            r.1@ == self.spec_columns(),
    {
        (self.schema, self.columns)
    }
}

/// Groups finished arrays under a schema; fails `BatchShapeMismatch` unless
/// there is one array per field, of its field's type, all of one length.
pub fn assemble(schema: Vec<Field>, arrays: Vec<ColumnArray>) -> (r: Result<RecordBatch, BackupError>)
    ensures
        r is Ok <==> fits_schema(schema@, arrays@),
        r is Err ==> r->Err_0 is BatchShapeMismatch,
        r is Ok ==> {
            let b = r->Ok_0;
            &&& b.wf()
            &&& b.spec_schema() == schema@
            &&& b.spec_columns() == arrays@
            &&& b.spec_row_count() == rows_of(arrays@)
        },
{
    if arrays.len() != schema.len() {
        return Err(BackupError::BatchShapeMismatch);
    }
    let rows: usize = if arrays.len() == 0 {
        0
    } else {
        arrays[0].len()
    };
    let mut i: usize = 0;
    while i < arrays.len()
        invariant
            arrays@.len() == schema@.len(),
            0 <= i <= arrays@.len(),
            rows == rows_of(arrays@),
            forall|j: int| 0 <= j < i ==> #[trigger] arrays@[j].target_type() == schema@[j].data_type,
            forall|j: int| 0 <= j < i ==> #[trigger] arrays@[j].cells().len() == rows_of(arrays@),
        decreases arrays.len() - i,
    {
        if arrays[i].data_type() != schema[i].data_type {
            return Err(BackupError::BatchShapeMismatch);
        }
        if arrays[i].len() != rows {
            return Err(BackupError::BatchShapeMismatch);
        }
        i = i + 1;
    }
    Ok(RecordBatch { schema, columns: arrays, row_count: rows })
}

} // verus!
