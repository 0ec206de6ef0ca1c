use vstd::prelude::*;

use vstd::string::*;

use crate::error::BackupError;

verus! {

/// The file name suffix of a published table.
pub const OUTPUT_EXTENSION: &'static str = ".parquet";

/// The file name suffix of a table while it is written.
pub const TEMP_EXTENSION: &'static str = ".temp";

/// `<root>/<table><suffix>`.
pub open spec fn table_path(root: Seq<char>, table: Seq<char>, suffix: Seq<char>) -> Seq<char> {
    root + seq!['/'] + table + suffix
}

/// `<root>/<table><suffix>` as a string.
fn join_path(root: &str, table: &str, suffix: &str) -> (r: String)
    ensures
        r@ == table_path(root@, table@, suffix@),
{
    let mut p = String::from_str(root);
    let sep = "/";
    proof {
        reveal_strlit("/");
    }
    p.append(sep);
    p.append(table);
    p.append(suffix);
    p
}

/// What removing one file came to.
pub enum RemoveOutcome {
    Removed,
    NotFound,
    Failed(String),
}

/// What a removal reports when the file did or did not exist and the file
/// system did not fail.
pub open spec fn removal_on(exists: bool) -> RemoveOutcome {
    if exists {
        RemoveOutcome::Removed
    } else {
        RemoveOutcome::NotFound
    }
}

/// A removal fails the cleanup only where the file system failed; a missing
/// file is no failure.
pub open spec fn removal_result(o: RemoveOutcome) -> Result<(), BackupError> {
    match o {
        RemoveOutcome::Failed(msg) => Err(BackupError::WriteError(msg)),
        _ => Ok(()),
    }
}

/// The two files of one table: the published file and its transient sibling.
pub struct TableBackup {
    file_path: String,
    temp_path: String,
}

impl TableBackup {
    pub closed spec fn spec_file_path(&self) -> Seq<char> {
        self.file_path@
    }

    pub closed spec fn spec_temp_path(&self) -> Seq<char> {
        self.temp_path@
    }

    /// The files of `table` under `root_directory`: `<table>.parquet`, and
    /// `<table>.temp` while it is written.
    pub fn new(root_directory: &str, table: &str) -> (r: TableBackup)
        ensures
            r.spec_file_path() == table_path(root_directory@, table@, OUTPUT_EXTENSION@),
            r.spec_temp_path() == table_path(root_directory@, table@, TEMP_EXTENSION@),
    {
        TableBackup {
            file_path: join_path(root_directory, table, OUTPUT_EXTENSION),
            temp_path: join_path(root_directory, table, TEMP_EXTENSION),
        }
    }

    pub fn file_path(&self) -> (r: &String)
        ensures
            r@ == self.spec_file_path(),
    {
        &self.file_path
    }

    pub fn temp_path(&self) -> (r: &String)
        ensures
            r@ == self.spec_temp_path(),
    {
        &self.temp_path
    }

    /// The verdict on one removal of an abort: a missing file is tolerated,
    /// any other failure is surfaced.
    pub fn after_removal(outcome: RemoveOutcome) -> (r: Result<(), BackupError>)
        ensures
            r == removal_result(outcome),
    {
        match outcome {
            RemoveOutcome::Failed(msg) => Err(BackupError::WriteError(msg)),
            _ => Ok(()),
        }
    }

    /// The result of a table's backup from the result of its read and, where
    /// the read failed, of the abort that followed: a failed abort is
    /// surfaced, otherwise the read's error is returned.
    pub fn settle(read: Result<(), BackupError>, abort: Option<Result<(), BackupError>>) -> (r: Result<
        (),
        BackupError,
    >)
        ensures
            read is Ok ==> r is Ok,
            read is Err && (abort is None || abort->Some_0 is Ok) ==> r == read,
            read is Err && abort is Some && abort->Some_0 is Err ==> r == abort->Some_0,
    {
        match read {
            Ok(()) => Ok(()),
            Err(e) => match abort {
                Some(Err(a)) => Err(a),
                _ => Err(e),
            },
        }
    }
}

/// Which of a table's files exist.
pub struct Artifacts {
    pub temp_exists: bool,
    pub final_exists: bool,
}

/// An abort on the files in `a`, where the file system does not fail: the
/// result, and the files left.
pub open spec fn abort_on(a: Artifacts) -> (Result<(), BackupError>, Artifacts) {
    let temp = removal_result(removal_on(a.temp_exists));
    let fin = removal_result(removal_on(a.final_exists));
    (if temp is Err {
        temp
    } else {
        fin
    }, Artifacts { temp_exists: false, final_exists: false })
}

/// An abort succeeds and leaves no file whichever files existed, so a second
/// abort, or one on a table that never opened a file, succeeds too.
pub proof fn lemma_abort_idempotent(a: Artifacts)
    ensures
        abort_on(a).0 is Ok,
        !abort_on(a).1.temp_exists && !abort_on(a).1.final_exists,
        abort_on(abort_on(a).1).0 is Ok,
        abort_on(abort_on(a).1).1 == abort_on(a).1,
        abort_on(Artifacts { temp_exists: false, final_exists: false }).0 is Ok,
{
}

/// How one table task ended.
pub enum TaskOutcome {
    /// The table was published.
    Succeeded,
    /// The table's backup returned an error.
    Failed(BackupError),
    /// The task itself failed (a panic or a cancellation), with a description.
    Crashed(String),
}

/// The error that a task outcome stops the batch with, if any.
pub open spec fn outcome_error(o: TaskOutcome) -> Option<BackupError> {
    match o {
        TaskOutcome::Succeeded => None,
        TaskOutcome::Failed(e) => Some(e),
        TaskOutcome::Crashed(msg) => Some(BackupError::Unrecoverable(msg)),
    }
}

/// The result of a batch whose task outcomes arrive in this order: the
/// first error stops it, and it succeeds when every task succeeded.
pub open spec fn fan_in(outcomes: Seq<TaskOutcome>) -> Result<(), BackupError>
    decreases outcomes.len(),
{
    if outcomes.len() == 0 {
        Ok(())
    } else {
        match outcome_error(outcomes[0]) {
            Some(e) => Err(e),
            None => fan_in(outcomes.drop_first()),
        }
    }
}

/// Where exactly one table fails, the batch returns that table's error.
pub proof fn lemma_fail_fast(outcomes: Seq<TaskOutcome>, i: int)
    requires
        0 <= i < outcomes.len(),
        outcome_error(outcomes[i]) is Some,
        forall|j: int| 0 <= j < outcomes.len() && j != i ==> #[trigger] outcomes[j] == TaskOutcome::Succeeded,
    ensures
        fan_in(outcomes) == Err::<(), BackupError>(outcome_error(outcomes[i])->Some_0),
    decreases outcomes.len(),
{
    if i > 0 {
        assert(outcomes[0] == TaskOutcome::Succeeded);
        let rest = outcomes.drop_first();
        assert forall|j: int| 0 <= j < rest.len() && j != i - 1 implies #[trigger] rest[j]
            == TaskOutcome::Succeeded by {
            assert(rest[j] == outcomes[j + 1]);
        }
        lemma_fail_fast(rest, i - 1);
    }
}

/// Where every table succeeds, so does the batch.
pub proof fn lemma_all_succeed(outcomes: Seq<TaskOutcome>)
    requires
        forall|j: int| 0 <= j < outcomes.len() ==> #[trigger] outcomes[j] == TaskOutcome::Succeeded,
    ensures
        fan_in(outcomes) is Ok,
    decreases outcomes.len(),
{
    if outcomes.len() > 0 {
        let rest = outcomes.drop_first();
        assert forall|j: int| 0 <= j < rest.len() implies #[trigger] rest[j] == TaskOutcome::Succeeded by {
            assert(rest[j] == outcomes[j + 1]);
        }
        lemma_all_succeed(rest);
    }
}

/// No two tables of the list have the same name.
pub open spec fn distinct(tables: Seq<String>) -> bool {
    forall|i: int, j: int| 0 <= i < j < tables.len() ==> (#[trigger] tables[i])@ != (#[trigger] tables[j])@
}

/// The names of a list of tables.
pub open spec fn names_of(tables: Seq<String>) -> Set<Seq<char>> {
    Set::new(|n: Seq<char>| exists|i: int| 0 <= i < tables.len() && (#[trigger] tables[i])@ == n)
}

/// Backs up several tables at once, each to `<root>/<table>.parquet`.
pub struct BatchBackup {
    root_directory: String,
    tables: Vec<String>,
}

impl BatchBackup {
    pub closed spec fn spec_root_directory(&self) -> Seq<char> {
        self.root_directory@
    }

    pub closed spec fn spec_tables(&self) -> Seq<String> {
        self.tables@
    }

    /// The table names are distinct.
    pub open spec fn wf(&self) -> bool {
        distinct(self.spec_tables())
    }

    /// A batch with no table yet.
    pub fn new(root_directory: String) -> (r: BatchBackup)
        ensures
            r.wf(),
            r.spec_root_directory() == root_directory@,
            r.spec_tables().len() == 0,
    {
        BatchBackup { tables: Vec::new(), root_directory }
    }

    /// Adds a table; a name already there is not added twice.
    pub fn add_table(&mut self, name: String)
        requires
            old(self).wf(),
        ensures
            final(self).wf(),
            final(self).spec_root_directory() == old(self).spec_root_directory(),
            names_of(final(self).spec_tables()) == names_of(old(self).spec_tables()).insert(name@),
            names_of(old(self).spec_tables()).contains(name@) ==> final(self).spec_tables() == old(
                self,
            ).spec_tables(),
            !names_of(old(self).spec_tables()).contains(name@) ==> final(self).spec_tables() == old(
                self,
            ).spec_tables().push(name),
    {
        let mut i: usize = 0;
        while i < self.tables.len()
            invariant
                0 <= i <= self.tables@.len(),
                self.tables@ == old(self).tables@,
                distinct(self.tables@),
                self.root_directory == old(self).root_directory,
                forall|k: int| 0 <= k < i ==> (#[trigger] self.tables@[k])@ != name@,
            decreases self.tables@.len() - i,
        {
            if self.tables[i] == name {
                proof {
                    assert(names_of(old(self).tables@).contains(name@));
                    assert(names_of(old(self).tables@).insert(name@) =~= names_of(old(self).tables@));
                }
                return;
            }
            i = i + 1;
        }
        let ghost before = self.tables@;
        self.tables.push(name);
        proof {
            assert(!names_of(before).contains(name@));
            assert(names_of(self.tables@) =~= names_of(before).insert(name@)) by {
                assert forall|n: Seq<char>| names_of(before).insert(name@).contains(n) implies names_of(
                    self.tables@,
                ).contains(n) by {
                    if n == name@ {
                        assert(self.tables@[before.len() as int]@ == n);
                    } else {
                        let k = choose|k: int| 0 <= k < before.len() && (#[trigger] before[k])@ == n;
                        assert(self.tables@[k] == before[k]);
                    }
                }
                assert forall|n: Seq<char>| names_of(self.tables@).contains(n) implies names_of(
                    before,
                ).insert(name@).contains(n) by {
                    let k = choose|k: int| 0 <= k < self.tables@.len() && (#[trigger] self.tables@[k])@ == n;
                    if k < before.len() {
                        assert(before[k] == self.tables@[k]);
                    }
                }
            }
        }
    }

    /// The tables, each once.
    pub fn tables(&self) -> (r: &Vec<String>)
        ensures
            r@ == self.spec_tables(),
    {
        &self.tables
    }

    pub fn root_directory(&self) -> (r: &String)
        ensures
            r@ == self.spec_root_directory(),
    {
        &self.root_directory
    }

    /// The files of one table of this batch.
    pub fn table_backup(&self, table: &str) -> (r: TableBackup)
        ensures
            r.spec_file_path() == table_path(self.spec_root_directory(), table@, OUTPUT_EXTENSION@),
            r.spec_temp_path() == table_path(self.spec_root_directory(), table@, TEMP_EXTENSION@),
    {
        TableBackup::new(self.root_directory.as_str(), table)
    }

    /// Decides on one finished task: `None` lets the batch go on, an error
    /// stops it, and the remaining tasks are then cancelled.
    pub fn on_outcome(outcome: TaskOutcome) -> (r: Option<BackupError>)
        ensures
            r == outcome_error(outcome),
    {
        match outcome {
            TaskOutcome::Succeeded => None,
            TaskOutcome::Failed(e) => Some(e),
            TaskOutcome::Crashed(msg) => Some(BackupError::Unrecoverable(msg)),
        }
    }
}

} // verus!
