use vstd::prelude::*;

use crate::backups::Artifacts;
use crate::batch::{fits_schema, rows_of, RecordBatch};
use crate::columns::{decode_value, push_cell_outcome, Column, ColumnArray, Datum};
use crate::error::BackupError;
use crate::schema::{field_matches, ColumnData, Field};
use crate::value::Value;

verus! {

/// A message from the reader of a table to its writer. A well-formed stream
/// is zero or more `Chunk`s followed by one `Finish` or `Error`.
pub enum WriteMessage {
    Chunk(RecordBatch),
    Finish,
    Error,
}

/// The capacity of the channel between reader and writer: two chunks' worth
/// of messages, at least one, and at most `MAX_CHANNEL_CAPACITY`.
pub open spec fn capacity_of(chunk_size: nat) -> nat {
    let c = if chunk_size == 0 {
        1
    } else {
        2 * chunk_size
    };
    if c > MAX_CHANNEL_CAPACITY {
        MAX_CHANNEL_CAPACITY as nat
    } else {
        c
    }
}

/// A cap on the channel's capacity that every target accepts: tokio's bounded
/// channel takes at most `usize::MAX >> 3` messages, which is this number on
/// 32-bit targets and more on 64-bit ones.
pub const MAX_CHANNEL_CAPACITY: usize = 0x1fff_ffff;

/// The capacity of the channel for a chunk size; see `capacity_of`.
pub fn channel_capacity(chunk_size: usize) -> (r: usize)
    ensures
        r == capacity_of(chunk_size as nat),
        1 <= r <= MAX_CHANNEL_CAPACITY,
{
    if chunk_size == 0 {
        1
    } else if chunk_size > MAX_CHANNEL_CAPACITY / 2 {
        MAX_CHANNEL_CAPACITY
    } else {
        2 * chunk_size
    }
}

/// The most rows in one chunk: the chunk size, or `usize::MAX` where it is
/// zero, which asks for the whole table in one chunk.
pub open spec fn chunk_limit(chunk_size: nat) -> nat {
    if chunk_size == 0 {
        usize::MAX as nat
    } else {
        chunk_size
    }
}

/// What one cell becomes in a column with the given descriptor.
pub open spec fn cell_of(d: ColumnData, v: Value) -> Result<Option<Datum>, BackupError> {
    if v is Null {
        if d.spec_nullable() {
            Ok(None)
        } else {
            Err(BackupError::NonNullableNull)
        }
    } else {
        match decode_value(d.spec_arrow_type(), v) {
            Ok(x) => Ok(Some(x)),
            Err(e) => Err(e),
        }
    }
}

/// The error of the first failing cell among the first `n` cells of a row.
pub open spec fn row_error(ds: Seq<ColumnData>, row: Seq<Value>, n: int) -> Option<BackupError>
    decreases n,
{
    if n <= 0 {
        None
    } else {
        match row_error(ds, row, n - 1) {
            Some(e) => Some(e),
            None => match cell_of(ds[n - 1], row[n - 1]) {
                Err(e) => Some(e),
                Ok(_) => None,
            },
        }
    }
}

proof fn lemma_cell_of(
    d: ColumnData,
    v: Value,
    before: Seq<Option<Datum>>,
    after: Seq<Option<Datum>>,
    r: Result<(), BackupError>,
)
    requires
        push_cell_outcome(d.spec_arrow_type(), d.spec_nullable(), v, before, after, r),
    ensures
        r is Ok ==> cell_of(d, v) is Ok && after == before.push(cell_of(d, v)->Ok_0),
        r is Err ==> cell_of(d, v) == Err::<Option<Datum>, BackupError>(r->Err_0),
{
}

proof fn lemma_row_error_stays(ds: Seq<ColumnData>, row: Seq<Value>, a: int, b: int)
    requires
        0 <= a <= b,
        row_error(ds, row, a) is Some,
    ensures
        row_error(ds, row, b) == row_error(ds, row, a),
    decreases b - a,
{
    if b > a {
        lemma_row_error_stays(ds, row, a, b - 1);
    }
}

/// Cuts the rows of a table scan into batches of at most `chunk_size` rows.
pub struct TableScan {
    descriptors: Vec<ColumnData>,
    schema: Vec<Field>,
    columns: Vec<Column>,
    rows: usize,
    chunk_size: usize,
}

impl TableScan {
    pub closed spec fn spec_descriptors(&self) -> Seq<ColumnData> {
        self.descriptors@
    }

    pub closed spec fn spec_schema(&self) -> Seq<Field> {
        self.schema@
    }

    pub closed spec fn spec_chunk_size(&self) -> nat {
        self.chunk_size as nat
    }

    /// The rows taken since the last batch went out.
    pub closed spec fn spec_rows(&self) -> nat {
        self.rows as nat
    }

    /// The cells of each column since the last batch went out.
    pub closed spec fn pending(&self) -> Seq<Seq<Option<Datum>>> {
        Seq::new(self.columns@.len(), |j: int| self.columns@[j].cells())
    }

    closed spec fn wf_shape(&self) -> bool {
        &&& self.descriptors@.len() == self.schema@.len()
        &&& self.columns@.len() == self.descriptors@.len()
        &&& forall|j: int|
            0 <= j < self.columns@.len() ==> {
                &&& (#[trigger] self.columns@[j]).wf()
                &&& self.columns@[j].descriptor() == self.descriptors@[j]
                &&& field_matches(self.schema@[j], self.descriptors@[j])
                &&& self.columns@[j].cells().len() == self.rows
            }
    }

    /// Descriptors, schema and columns agree, and fewer rows than a chunk wait.
    pub closed spec fn wf(&self) -> bool {
        self.wf_shape() && self.rows < chunk_limit(self.chunk_size as nat)
    }

    /// Every pending column is empty.
    pub open spec fn is_empty(&self) -> bool {
        &&& self.spec_rows() == 0
        &&& self.pending().len() == self.spec_descriptors().len()
        &&& forall|j: int| 0 <= j < self.pending().len() ==> (#[trigger] self.pending()[j]).len() == 0
    }

    /// Empty columns, one for each descriptor.
    pub fn get_columns(descriptors: &Vec<ColumnData>) -> (r: Vec<Column>)
        ensures
            r@.len() == descriptors@.len(),
            forall|j: int|
                0 <= j < r@.len() ==> {
                    &&& (#[trigger] r@[j]).wf()
                    &&& r@[j].descriptor() == descriptors@[j]
                    &&& r@[j].cells().len() == 0
                },
    {
        let mut r: Vec<Column> = Vec::new();
        let mut j: usize = 0;
        while j < descriptors.len()
            invariant
                0 <= j <= descriptors@.len(),
                r@.len() == j,
                forall|k: int|
                    0 <= k < j ==> {
                        &&& (#[trigger] r@[k]).wf()
                        &&& r@[k].descriptor() == descriptors@[k]
                        &&& r@[k].cells().len() == 0
                    },
            decreases descriptors@.len() - j,
        {
            let column = match Column::from_data(descriptors[j].copy()) {
                Ok(c) => c,
                Err(_) => {
                    return r;
                },
            };
            r.push(column);
            j = j + 1;
        }
        r
    }

    /// A scan over columns with these descriptors, cut every `chunk_size` rows.
    pub fn new(descriptors: Vec<ColumnData>, chunk_size: usize) -> (r: TableScan)
        ensures
            r.wf(),
            r.is_empty(),
            r.spec_descriptors() == descriptors@,
            r.spec_chunk_size() == chunk_size,
            r.spec_schema().len() == descriptors@.len(),
            forall|j: int|
                0 <= j < descriptors@.len() ==> field_matches(
                    #[trigger] r.spec_schema()[j],
                    descriptors@[j],
                ),
    {
        let mut schema: Vec<Field> = Vec::new();
        let mut j: usize = 0;
        while j < descriptors.len()
            invariant
                0 <= j <= descriptors@.len(),
                schema@.len() == j,
                forall|k: int| 0 <= k < j ==> field_matches(#[trigger] schema@[k], descriptors@[k]),
            decreases descriptors@.len() - j,
        {
            schema.push(descriptors[j].get_schema_field());
            j = j + 1;
        }
        let columns = TableScan::get_columns(&descriptors);
        let r = TableScan { descriptors, schema, columns, rows: 0, chunk_size };
        assert(r.pending().len() == r.columns@.len());
        r
    }

    /// The schema of the batches.
    pub fn schema(&self) -> (r: &Vec<Field>)
        ensures
            r@ == self.spec_schema(),
    {
        &self.schema
    }

    /// The chunk size.
    pub fn chunk_size(&self) -> (r: usize)
        ensures
            r == self.spec_chunk_size(),
    {
        self.chunk_size
    }

    /// Ends the pending columns as a batch and starts empty ones.
    fn take_batch(&mut self) -> (b: RecordBatch)
        requires
            old(self).wf_shape(),
        ensures
            final(self).wf(),
            final(self).is_empty(),
            final(self).spec_descriptors() == old(self).spec_descriptors(),
            final(self).spec_schema() == old(self).spec_schema(),
            final(self).spec_chunk_size() == old(self).spec_chunk_size(),
            b.wf(),
            b.spec_schema() == old(self).spec_schema(),
            b.spec_columns().len() == old(self).pending().len(),
            forall|j: int|
                0 <= j < b.spec_columns().len() ==> (#[trigger] b.spec_columns()[j]).cells() == old(
                    self,
                ).pending()[j],
    {
        let mut cols = TableScan::get_columns(&self.descriptors);
        std::mem::swap(&mut self.columns, &mut cols);
        self.rows = 0;
        assert forall|j: int| 0 <= j < self.columns@.len() implies field_matches(
            #[trigger] self.schema@[j],
            self.descriptors@[j],
        ) by {
            assert(old(self).columns@[j].wf());
        }
        assert(self.pending().len() == self.columns@.len());
        let ghost old_cols = cols@;
        let arrays = finish_columns(cols);
        let schema = copy_fields(&self.schema);
        assert(fits_schema(schema@, arrays@)) by {
            assert forall|i: int| 0 <= i < arrays@.len() implies #[trigger] arrays@[i].cells().len()
                == rows_of(arrays@) by {
                assert(arrays@[0].cells() == old_cols[0].cells());
            }
        }
        RecordBatch::from_parts(schema, arrays)
    }

    /// Takes one row. Fails with the first failing cell's error, or
    /// `BatchShapeMismatch` for a row of the wrong width; after a failure the
    /// scan is over. Otherwise every cell goes to its column, and when the
    /// pending rows reach a chunk they go out as one batch.
    pub fn push_row(&mut self, row: Vec<Value>) -> (r: Result<Option<RecordBatch>, BackupError>)
        requires
            old(self).wf(),
        ensures
            row@.len() != old(self).spec_descriptors().len() ==> r == Err::<
                Option<RecordBatch>,
                BackupError,
            >(BackupError::BatchShapeMismatch),
            row@.len() == old(self).spec_descriptors().len() && row_error(
                old(self).spec_descriptors(),
                row@,
                row@.len() as int,
            ) is Some ==> r == Err::<Option<RecordBatch>, BackupError>(
                row_error(old(self).spec_descriptors(), row@, row@.len() as int)->Some_0,
            ),
            row@.len() == old(self).spec_descriptors().len() && row_error(
                old(self).spec_descriptors(),
                row@,
                row@.len() as int,
            ) is None ==> {
                let ds = old(self).spec_descriptors();
                let grown = Seq::new(
                    ds.len(),
                    |j: int| old(self).pending()[j].push(cell_of(ds[j], row@[j])->Ok_0),
                );
                &&& r is Ok
                &&& final(self).wf()
                &&& final(self).spec_descriptors() == ds
                &&& final(self).spec_schema() == old(self).spec_schema()
                &&& final(self).spec_chunk_size() == old(self).spec_chunk_size()
                &&& if old(self).spec_rows() + 1 == chunk_limit(old(self).spec_chunk_size()) {
                    let b = r->Ok_0->Some_0;
                    &&& r->Ok_0 is Some
                    &&& final(self).is_empty()
                    &&& b.wf()
                    &&& b.spec_schema() == old(self).spec_schema()
                    &&& b.spec_columns().len() == ds.len()
                    &&& forall|j: int|
                        0 <= j < ds.len() ==> (#[trigger] b.spec_columns()[j]).cells() == grown[j]
                } else {
                    &&& r->Ok_0 is None
                    &&& final(self).spec_rows() == old(self).spec_rows() + 1
                    &&& final(self).pending() == grown
                }
            },
    {
        let n = self.columns.len();
        if row.len() != n {
            return Err(BackupError::BatchShapeMismatch);
        }
        let ghost ds = self.descriptors@;
        let ghost orig = row@;
        let ghost old_cols = self.columns@;
        let mut rest = row;
        let mut done: Vec<Column> = Vec::new();
        let mut j: usize = 0;
        while j < n
            invariant
                n == ds.len(),
                n == orig.len(),
                n == old_cols.len(),
                ds == self.descriptors@,
                ds == old(self).descriptors@,
                orig == row@,
                0 <= j <= n,
                rest@ == orig.subrange(j as int, n as int),
                self.columns@ == old_cols.subrange(j as int, n as int),
                done@.len() == j,
                row_error(ds, orig, j as int) is None,
                forall|k: int|
                    0 <= k < n ==> {
                        &&& (#[trigger] old_cols[k]).wf()
                        &&& old_cols[k].descriptor() == ds[k]
                    },
                forall|k: int|
                    0 <= k < j ==> {
                        &&& (#[trigger] done@[k]).wf()
                        &&& done@[k].descriptor() == ds[k]
                        &&& cell_of(ds[k], orig[k]) is Ok
                        &&& done@[k].cells() == old_cols[k].cells().push(cell_of(ds[k], orig[k])->Ok_0)
                    },
                self.schema == old(self).schema,
                self.rows == old(self).rows,
                self.chunk_size == old(self).chunk_size,
            decreases n - j,
        {
            let v = rest.remove(0);
            let mut c = self.columns.remove(0);
            assert(v == orig[j as int]);
            assert(c == old_cols[j as int]);
            let ghost before_c = c;
            let res = Column::push(&mut c, v);
            proof {
                lemma_cell_of(ds[j as int], orig[j as int], before_c.cells(), c.cells(), res);
            }
            match res {
                Err(e) => {
                    proof {
                        assert(row_error(ds, orig, j + 1) == Some(e));
                        lemma_row_error_stays(ds, orig, j + 1, n as int);
                    }
                    return Err(e);
                },
                Ok(()) => {},
            }
            let ghost done_before = done@;
            done.push(c);
            proof {
                assert forall|k: int| 0 <= k < j + 1 implies {
                    &&& (#[trigger] done@[k]).wf()
                    &&& done@[k].descriptor() == ds[k]
                    &&& cell_of(ds[k], orig[k]) is Ok
                    &&& done@[k].cells() == old_cols[k].cells().push(cell_of(ds[k], orig[k])->Ok_0)
                } by {
                    if k < j {
                        assert(done@[k] == done_before[k]);
                    }
                }
            }
            j = j + 1;
        }
        self.columns = done;
        self.rows = self.rows + 1;
        proof {
            let ghost grown = Seq::new(ds.len(), |k: int| old(self).pending()[k].push(cell_of(ds[k], orig[k])->Ok_0));
            assert(self.pending() =~= grown);
        }
        if self.rows == usize::MAX || (self.chunk_size > 0 && self.rows >= self.chunk_size) {
            let b = self.take_batch();
            Ok(Some(b))
        } else {
            Ok(None)
        }
    }

    /// Ends the scan: the pending rows as a last batch, or `None` where no row waits.
    pub fn finish(&mut self) -> (r: Option<RecordBatch>)
        requires
            old(self).wf(),
        ensures
            final(self).wf(),
            final(self).is_empty(),
            final(self).spec_descriptors() == old(self).spec_descriptors(),
            final(self).spec_schema() == old(self).spec_schema(),
            final(self).spec_chunk_size() == old(self).spec_chunk_size(),
            old(self).spec_rows() == 0 ==> r is None,
            old(self).spec_rows() > 0 ==> {
                let b = r->Some_0;
                &&& r is Some
                &&& b.wf()
                &&& b.spec_schema() == old(self).spec_schema()
                &&& b.spec_columns().len() == old(self).pending().len()
                &&& forall|j: int|
                    0 <= j < b.spec_columns().len() ==> (#[trigger] b.spec_columns()[j]).cells()
                        == old(self).pending()[j]
            },
    {
        if self.rows == 0 {
            assert(self.is_empty());
            return None;
        }
        Some(self.take_batch())
    }
}

/// Ends each column, in order.
fn finish_columns(cols: Vec<Column>) -> (r: Vec<ColumnArray>)
    ensures
        r@.len() == cols@.len(),
        forall|k: int|
            0 <= k < r@.len() ==> {
                &&& (#[trigger] r@[k]).cells() == cols@[k].cells()
                &&& r@[k].target_type() == cols@[k].builder_type()
            },
{
    let ghost old_cols = cols@;
    let mut rest = cols;
    let n = rest.len();
    let mut arrays: Vec<ColumnArray> = Vec::new();
    let mut j: usize = 0;
    while j < n
        invariant
            n == old_cols.len(),
            0 <= j <= n,
            rest@ == old_cols.subrange(j as int, n as int),
            arrays@.len() == j,
            forall|k: int|
                0 <= k < j ==> {
                    &&& (#[trigger] arrays@[k]).cells() == old_cols[k].cells()
                    &&& arrays@[k].target_type() == old_cols[k].builder_type()
                },
        decreases n - j,
    {
        let c = rest.remove(0);
        arrays.push(c.finish());
        j = j + 1;
    }
    arrays
}

/// A copy of a list of fields.
fn copy_fields(fields: &Vec<Field>) -> (r: Vec<Field>)
    ensures
        r@ == fields@,
{
    let mut r: Vec<Field> = Vec::new();
    let mut k: usize = 0;
    while k < fields.len()
        invariant
            0 <= k <= fields@.len(),
            r@ == fields@.subrange(0, k as int),
        decreases fields@.len() - k,
    {
        r.push(fields[k].copy());
        k = k + 1;
        assert(r@ =~= fields@.subrange(0, k as int));
    }
    assert(r@ =~= fields@);
    r
}

/// What the writer does on the next message, or on a closed channel.
pub enum WriterCommand {
    /// Write a batch to the transient file.
    Write(RecordBatch),
    /// Finish the file and rename it to its final name.
    Publish,
    /// Remove the table's files: the reader has failed and reported it.
    Abort,
    /// Remove the table's files: the channel closed before a terminal message.
    AbortPremature,
}

/// How the writer goes on after a step.
pub enum WriterFlow {
    /// Wait for the next message.
    Continue,
    /// Stop with this result.
    Stop(Result<(), BackupError>),
    /// Remove the table's files, then stop with this error, or with the
    /// removal's error where that fails.
    AbortThenStop(BackupError),
}

/// The writer's command for a message; `None` is a channel that closed.
pub fn writer_command(message: Option<WriteMessage>) -> (r: WriterCommand)
    ensures
        match message {
            None => r is AbortPremature,
            Some(WriteMessage::Chunk(b)) => r == WriterCommand::Write(b),
            Some(WriteMessage::Finish) => r is Publish,
            Some(WriteMessage::Error) => r is Abort,
        },
{
    match message {
        None => WriterCommand::AbortPremature,
        Some(WriteMessage::Chunk(b)) => WriterCommand::Write(b),
        Some(WriteMessage::Finish) => WriterCommand::Publish,
        Some(WriteMessage::Error) => WriterCommand::Abort,
    }
}

/// The flow after setting the writer up.
pub open spec fn setup_flow_spec(result: Result<(), BackupError>) -> WriterFlow {
    match result {
        Ok(()) => WriterFlow::Continue,
        Err(e) => WriterFlow::AbortThenStop(e),
    }
}

/// The flow after a command ran with the given result.
pub open spec fn flow_spec(command: WriterCommand, result: Result<(), BackupError>) -> WriterFlow {
    match (command, result) {
        (WriterCommand::Write(_), Ok(())) => WriterFlow::Continue,
        (WriterCommand::Write(_), Err(e)) => WriterFlow::AbortThenStop(e),
        (WriterCommand::Publish, Ok(())) => WriterFlow::Stop(Ok(())),
        (WriterCommand::Publish, Err(e)) => WriterFlow::AbortThenStop(e),
        (WriterCommand::Abort, r) => WriterFlow::Stop(r),
        (WriterCommand::AbortPremature, Ok(())) => WriterFlow::Stop(Err(BackupError::PrematureEndOfStream)),
        (WriterCommand::AbortPremature, Err(e)) => WriterFlow::Stop(Err(e)),
    }
}

/// The flow after setting the writer up: a failed setup removes what it left.
pub fn setup_flow(result: Result<(), BackupError>) -> (r: WriterFlow)
    ensures
        r == setup_flow_spec(result),
{
    match result {
        Ok(()) => WriterFlow::Continue,
        Err(e) => WriterFlow::AbortThenStop(e),
    }
}

/// The flow after a command: a failed write or publish removes the files and
/// surfaces its error; an abort ends the task, successfully where the reader
/// reported the failure, with `PrematureEndOfStream` where the channel closed.
pub fn writer_flow(command: &WriterCommand, result: Result<(), BackupError>) -> (r: WriterFlow)
    ensures
        r == flow_spec(*command, result),
{
    match command {
        WriterCommand::Write(_) => match result {
            Ok(()) => WriterFlow::Continue,
            Err(e) => WriterFlow::AbortThenStop(e),
        },
        WriterCommand::Publish => match result {
            Ok(()) => WriterFlow::Stop(Ok(())),
            Err(e) => WriterFlow::AbortThenStop(e),
        },
        WriterCommand::Abort => WriterFlow::Stop(result),
        WriterCommand::AbortPremature => match result {
            Ok(()) => WriterFlow::Stop(Err(BackupError::PrematureEndOfStream)),
            Err(e) => WriterFlow::Stop(Err(e)),
        },
    }
}

/// The files of a table after a writer command ran with `result`, where a
/// file operation that reports success did what it says: publishing renames
/// the transient file to the final name, and an abort removes both.
pub open spec fn files_after(a: Artifacts, command: WriterCommand, result: Result<(), BackupError>) -> Artifacts {
    match (command, result) {
        (WriterCommand::Publish, Ok(())) => Artifacts { temp_exists: false, final_exists: true },
        (WriterCommand::Abort, Ok(())) => Artifacts { temp_exists: false, final_exists: false },
        (WriterCommand::AbortPremature, Ok(())) => Artifacts { temp_exists: false, final_exists: false },
        _ => a,
    }
}

/// The files when the writer stops after a flow, where the abort that an
/// `AbortThenStop` runs succeeds.
pub open spec fn files_at_stop(a: Artifacts, flow: WriterFlow) -> Artifacts {
    match flow {
        WriterFlow::AbortThenStop(_) => Artifacts { temp_exists: false, final_exists: false },
        _ => a,
    }
}

/// Whatever files a table had, a writer that stops with success after
/// publishing leaves only the final file, and one that stops on a failed
/// write or publish, or on an abort, leaves neither file (where its
/// removals succeed).
pub proof fn lemma_atomic_publish(a: Artifacts, command: WriterCommand, result: Result<(), BackupError>)
    ensures
        ({
            let flow = flow_spec(command, result);
            let files = files_at_stop(files_after(a, command, result), flow);
            &&& (command is Publish && flow == WriterFlow::Stop(Ok(()))) ==> files == Artifacts {
                temp_exists: false,
                final_exists: true,
            }
            &&& flow is AbortThenStop ==> files == Artifacts { temp_exists: false, final_exists: false }
            &&& ((command is Abort || command is AbortPremature) && result is Ok) ==> files == Artifacts {
                temp_exists: false,
                final_exists: false,
            }
        }),
{
}

} // verus!
