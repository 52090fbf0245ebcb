//! The store of job records: one table, one row per job.

use crate::bisect::BisectStatus;
use crate::bisect::Bisection;
use crate::bisect::BisectionView;
use crate::bisect::StatusView;
use vstd::prelude::*;

verus! {

/// A connection of `rusqlite`. Nothing is known of what its database holds: the file
/// belongs to every connection that is open on it.
#[verifier::external_type_specification]
#[verifier::external_body]
pub struct ExConnection(rusqlite::Connection);

/// The error type of `rusqlite`.
#[verifier::external_type_specification]
#[verifier::external_body]
pub struct ExEngineError(rusqlite::Error);

/// The statement that creates the table unless it is there.
pub const CREATE_TABLE: &'static str =
    "CREATE TABLE IF NOT EXISTS bisect (
            job_id STRING PRIMARY KEY,
            code STRING NOT NULL,
            status INTEGER NOT NULL DEFAULT 0,
            stdout_stderr STRING -- stdout or stderr depending on the status
        )";

/// The statement that adds a row. Its parameters are the identifier, the code, the
/// number of the status and the text of the status.
pub const INSERT_ROW: &'static str =
    "INSERT INTO bisect (job_id, code, status, stdout_stderr) VALUES (?1, ?2, ?3, ?4)";

/// The statement that rewrites the status of the row with a given identifier. It takes
/// the same four parameters as `INSERT_ROW` and leaves the code, the second, unused.
pub const UPDATE_STATUS: &'static str =
    "UPDATE bisect SET status = ?3, stdout_stderr = ?4 WHERE bisect.job_id = ?1";

/// The statement that reads every row.
pub const SELECT_ALL: &'static str = "SELECT job_id, code, status, stdout_stderr FROM bisect";

/// The statement that reads the row with a given identifier.
pub const SELECT_ONE: &'static str =
    "SELECT job_id, code, status, stdout_stderr FROM bisect WHERE job_id = ?1";

/// A row as the table holds it.
#[derive(Clone, Debug, PartialEq, Eq)]
pub struct StoredRow {
    pub id: u128,
    pub code: String,
    /// The number that stands for the status.
    pub status: i32,
    /// The text that belongs to a status that ended the job.
    pub output: Option<String>,
}

/// A row over sequences of characters.
pub struct RowView {
    pub id: u128,
    pub code: Seq<char>,
    pub status: i32,
    pub output: Option<Seq<char>>,
}

impl View for StoredRow {
    type V = RowView;

    open spec fn view(&self) -> RowView {
        RowView {
            id: self.id,
            code: self.code@,
            status: self.status,
            output: match self.output {
                Some(o) => Some(o@),
                None => None,
            },
        }
    }
}

/// Why a row stands for no record.
#[derive(Clone, Copy, Debug, PartialEq, Eq, Structural)]
pub enum RowError {
    /// The number stands for no status.
    UnknownStatus(i32),
    /// The status ended the job, and the row holds no text for it.
    MissingOutput,
}

/// Why the store gave no answer.
#[derive(Debug)]
pub enum StoreError {
    /// The database refused the statement or could not be read.
    Engine(rusqlite::Error),
    /// The database holds a row that stands for no record.
    Row(RowError),
}

impl StatusView {
    /// The number that stands for the status in the table.
    pub open spec fn discriminant(self) -> u8 {
        match self {
            StatusView::InProgress => 0,
            StatusView::Error { .. } => 1,
            StatusView::Success { .. } => 2,
        }
    }

    /// The text that the table keeps beside the number.
    pub open spec fn payload(self) -> Option<Seq<char>> {
        match self {
            StatusView::InProgress => None,
            StatusView::Error { output } => Some(output),
            StatusView::Success { output } => Some(output),
        }
    }
}

/// The status that a number and a text of the table stand for.
pub open spec fn status_of_sql(status: i32, output: Option<Seq<char>>) -> Result<
    StatusView,
    RowError,
> {
    if status == 0 {
        Ok(StatusView::InProgress)
    } else if status == 1 {
        match output {
            Some(o) => Ok(StatusView::Error { output: o }),
            None => Err(RowError::MissingOutput),
        }
    } else if status == 2 {
        match output {
            Some(o) => Ok(StatusView::Success { output: o }),
            None => Err(RowError::MissingOutput),
        }
    } else {
        Err(RowError::UnknownStatus(status))
    }
}

/// The record that a row stands for.
pub open spec fn record_of_row(row: RowView) -> Result<BisectionView, RowError> {
    match status_of_sql(row.status, row.output) {
        Ok(status) => Ok(BisectionView { id: row.id, code: row.code, status }),
        Err(e) => Err(e),
    }
}

/// The row that stands for a record.
pub open spec fn row_of_record(record: BisectionView) -> RowView {
    RowView {
        id: record.id,
        code: record.code,
        status: record.status.discriminant() as i32,
        output: record.status.payload(),
    }
}

/// The characters of a borrowed text that may be absent.
pub open spec fn optional_str(text: Option<&str>) -> Option<Seq<char>> {
    match text {
        Some(t) => Some(t@),
        None => None,
    }
}

/// The number and the text that stand for `status` in the table.
pub fn status_to_sql(status: &BisectStatus) -> (r: (u8, Option<&str>))
    ensures
        r.0 == status@.discriminant(),
        optional_str(r.1) == status@.payload(),
{
    match status {
        BisectStatus::InProgress => (0, None),
        BisectStatus::Error { output } => (1, Some(output.as_str())),
        BisectStatus::Success { output } => (2, Some(output.as_str())),
    }
}

/// The status that a number and a text of the table stand for.
pub fn status_from_sql(status: i32, output: Option<String>) -> (r: Result<BisectStatus, RowError>)
    ensures
        match status_of_sql(status, crate::bisect::optional_text(output)) {
            Ok(expected) => r is Ok && r->Ok_0@ == expected,
            Err(e) => r is Err && r->Err_0 == e,
        },
{
    if status == 0 {
        Ok(BisectStatus::InProgress)
    } else if status == 1 {
        match output {
            Some(output) => Ok(BisectStatus::Error { output }),
            None => Err(RowError::MissingOutput),
        }
    } else if status == 2 {
        match output {
            Some(output) => Ok(BisectStatus::Success { output }),
            None => Err(RowError::MissingOutput),
        }
    } else {
        Err(RowError::UnknownStatus(status))
    }
}

/// The record that `row` stands for.
pub fn decode_row(row: &StoredRow) -> (r: Result<Bisection, RowError>)
    ensures
        match record_of_row(row@) {
            Ok(expected) => r is Ok && r->Ok_0@ == expected,
            Err(e) => r is Err && r->Err_0 == e,
        },
{
    let output = match &row.output {
        Some(o) => Some(o.clone()),
        None => None,
    };
    match status_from_sql(row.status, output) {
        Ok(status) => Ok(Bisection { id: row.id, code: row.code.clone(), status }),
        Err(e) => Err(e),
    }
}

/// Every status comes back from the number and the text that stand for it.
pub proof fn lemma_status_round_trip(status: StatusView)
    ensures
        status_of_sql(status.discriminant() as i32, status.payload()) == Ok::<
            StatusView,
            RowError,
        >(status),
{
}

/// Every record comes back from the row that stands for it.
pub proof fn lemma_record_round_trip(record: BisectionView)
    ensures
        record_of_row(row_of_record(record)) == Ok::<BisectionView, RowError>(record),
{
    lemma_status_round_trip(record.status);
}

/// Calls `rusqlite::Connection::execute` on a statement without parameters. The
/// database decides what comes back: the number of rows changed, or its error.
#[verifier::external_body]
fn execute_plain(conn: &rusqlite::Connection, sql: &str) -> (r: Result<usize, rusqlite::Error>) {
    conn.execute(sql, ())
}

/// Calls `rusqlite::Connection::execute` on a statement with four parameters, to which
/// it binds the fields of a record in this order: the identifier as a `uuid::Uuid`, the
/// code, the number of the status and its text. The database decides what comes back.
#[verifier::external_body]
fn execute_record(
    conn: &rusqlite::Connection,
    sql: &str,
    id: u128,
    code: &str,
    status: u8,
    output: Option<&str>,
) -> (r: Result<usize, rusqlite::Error>) {
    conn.execute(sql, (uuid::Uuid::from_u128(id), code, status, output))
}

/// Calls `rusqlite::Connection::prepare` on a query of four columns, runs it with
/// `rusqlite::Statement::query_map`, with the identifier as its one parameter where
/// there is one, and reads each row with `rusqlite::Row::get`: the identifier as a
/// `uuid::Uuid`, the code as text, the status as a number and its text, which may be
/// null. The database decides what comes back: its rows in its order, or the first error.
#[verifier::external_body]
fn query_rows(conn: &rusqlite::Connection, sql: &str, id: Option<u128>) -> (r: Result<
    Vec<StoredRow>,
    rusqlite::Error,
>) {
    let mut select = conn.prepare(sql)?;
    let rows = select.query_map(
        rusqlite::params_from_iter(id.map(uuid::Uuid::from_u128)),
        |row| {
            Ok(StoredRow {
                id: row.get::<_, uuid::Uuid>(0)?.as_u128(),
                code: row.get(1)?,
                status: row.get(2)?,
                output: row.get(3)?,
            })
        },
    )?;
    rows.collect()
}

/// Calls `to_string` on an error of `rusqlite`.
#[verifier::external_body]
fn engine_error_text(error: &rusqlite::Error) -> (text: String) {
    error.to_string()
}

impl StoreError {
    /// The error in words.
    pub fn message(&self) -> (text: String)
        ensures
            *self == StoreError::Row(RowError::MissingOutput) ==> text@
                == "status without output in database"@,
            self matches StoreError::Row(RowError::UnknownStatus(_)) ==> text@
                == "unknown status in database"@,
    {
        match self {
            StoreError::Engine(error) => engine_error_text(error),
            StoreError::Row(RowError::UnknownStatus(_)) => "unknown status in database".to_owned(),
            StoreError::Row(RowError::MissingOutput) => "status without output in database".to_owned(),
        }
    }
}

/// What a write amounts to: done where the database took the statement, else its error.
pub fn written(raw: Result<usize, rusqlite::Error>) -> (r: Result<(), StoreError>)
    ensures
        raw is Ok ==> r is Ok,
        raw is Err ==> r is Err && r->Err_0 == StoreError::Engine(raw->Err_0),
{
    match raw {
        Ok(_) => Ok(()),
        Err(error) => Err(StoreError::Engine(error)),
    }
}

/// The records that the rows stand for, in the order of the rows; the error of the
/// first row that stands for none.
pub fn decode_rows(rows: &Vec<StoredRow>) -> (r: Result<Vec<Bisection>, RowError>)
    ensures
        match r {
            Ok(records) => {
                &&& records@.len() == rows@.len()
                &&& forall|i: int|
                    0 <= i < rows@.len() ==> record_of_row(#[trigger] rows@[i]@) == Ok::<
                        BisectionView,
                        RowError,
                    >(records@[i]@)
            },
            Err(e) => exists|k: int|
                {
                    &&& 0 <= k < rows@.len()
                    &&& record_of_row(#[trigger] rows@[k]@) == Err::<BisectionView, RowError>(e)
                    &&& forall|j: int| 0 <= j < k ==> record_of_row(#[trigger] rows@[j]@) is Ok
                },
        },
{
    let mut records: Vec<Bisection> = Vec::new();
    let mut i: usize = 0;
    while i < rows.len()
        invariant
            i <= rows@.len(),
            records@.len() == i,
            forall|j: int|
                0 <= j < i ==> record_of_row(#[trigger] rows@[j]@) == Ok::<
                    BisectionView,
                    RowError,
                >(records@[j]@),
        decreases rows@.len() - i,
    {
        match decode_row(&rows[i]) {
            Ok(record) => {
                records.push(record);
            },
            Err(e) => {
                return Err(e);
            },
        }
        i += 1;
    }
    Ok(records)
}

/// `r` is what a listing makes of the database's `answer`: the records of its rows,
/// row by row; its error; or the error of its first row that stands for no record.
pub open spec fn is_listing(
    answer: Result<Vec<StoredRow>, rusqlite::Error>,
    r: Result<Vec<Bisection>, StoreError>,
) -> bool {
    match answer {
        Err(error) => r is Err && r->Err_0 == StoreError::Engine(error),
        Ok(rows) => match r {
            Ok(records) => {
                &&& records@.len() == rows@.len()
                &&& forall|i: int|
                    0 <= i < rows@.len() ==> record_of_row(#[trigger] rows@[i]@) == Ok::<
                        BisectionView,
                        RowError,
                    >(records@[i]@)
            },
            Err(StoreError::Row(e)) => exists|k: int|
                {
                    &&& 0 <= k < rows@.len()
                    &&& record_of_row(#[trigger] rows@[k]@) == Err::<BisectionView, RowError>(e)
                    &&& forall|j: int| 0 <= j < k ==> record_of_row(#[trigger] rows@[j]@) is Ok
                },
            Err(StoreError::Engine(_)) => false,
        },
    }
}

/// `r` is what a lookup makes of the database's `answer`: nothing where it gave no
/// row, else the record of its first row; its error; or the error of a first row that
/// stands for no record.
pub open spec fn is_lookup(
    answer: Result<Vec<StoredRow>, rusqlite::Error>,
    r: Result<Option<Bisection>, StoreError>,
) -> bool {
    match answer {
        Err(error) => r is Err && r->Err_0 == StoreError::Engine(error),
        Ok(rows) => if rows@.len() == 0 {
            r is Ok && r->Ok_0 is None
        } else {
            match record_of_row(rows@[0]@) {
                Ok(record) => r is Ok && r->Ok_0 is Some && r->Ok_0->0@ == record,
                Err(e) => r is Err && r->Err_0 == StoreError::Row(e),
            }
        },
    }
}

/// What a listing amounts to: the records of the rows, the error of the database, or
/// the error of the first row that stands for no record.
pub fn listed(raw: Result<Vec<StoredRow>, rusqlite::Error>) -> (r: Result<
    Vec<Bisection>,
    StoreError,
>)
    ensures
        is_listing(raw, r),
{
    match raw {
        Ok(rows) => match decode_rows(&rows) {
            Ok(records) => Ok(records),
            Err(e) => Err(StoreError::Row(e)),
        },
        Err(error) => Err(StoreError::Engine(error)),
    }
}

/// What a lookup amounts to: nothing where the database gave no row, else the record
/// of its first row; the error of the database, or that of a first row that stands
/// for no record.
pub fn found(raw: Result<Vec<StoredRow>, rusqlite::Error>) -> (r: Result<
    Option<Bisection>,
    StoreError,
>)
    ensures
        is_lookup(raw, r),
{
    match raw {
        Ok(rows) => {
            if rows.len() == 0 {
                Ok(None)
            } else {
                match decode_row(&rows[0]) {
                    Ok(record) => Ok(Some(record)),
                    Err(e) => Err(StoreError::Row(e)),
                }
            }
        },
        Err(error) => Err(StoreError::Engine(error)),
    }
}

/// Creates the table of records unless the database has it. Fails only with the
/// error of the database.
pub fn setup(conn: &rusqlite::Connection) -> (r: Result<(), StoreError>)
    ensures
        r is Err ==> r->Err_0 is Engine,
{
    written(execute_plain(conn, CREATE_TABLE))
}

/// Adds the row that stands for `bisect`. The database refuses a second row with the
/// same identifier. Fails only with the error of the database.
pub fn add_bisection(conn: &rusqlite::Connection, bisect: &Bisection) -> (r: Result<
    (),
    StoreError,
>)
    ensures
        r is Err ==> r->Err_0 is Engine,
{
    let (status, stdout_stderr) = status_to_sql(&bisect.status);
    written(
        execute_record(conn, INSERT_ROW, bisect.id, bisect.code.as_str(), status, stdout_stderr),
    )
}

/// Rewrites the status of the row with the identifier of `bisect`, whatever status the
/// row has. Fails only with the error of the database.
pub fn update_bisection_status(conn: &rusqlite::Connection, bisect: &Bisection) -> (r: Result<
    (),
    StoreError,
>)
    ensures
        r is Err ==> r->Err_0 is Engine,
{
    let (status, stdout_stderr) = status_to_sql(&bisect.status);
    written(
        execute_record(conn, UPDATE_STATUS, bisect.id, bisect.code.as_str(), status, stdout_stderr),
    )
}

/// Asks the database for every row and lists what it answered: every record of the
/// store, in the order in which the database gives its rows. Whatever the database
/// answered, the result is the listing of that answer.
pub fn get_bisections(conn: &rusqlite::Connection) -> (r: Result<Vec<Bisection>, StoreError>)
    ensures
        exists|answer: Result<Vec<StoredRow>, rusqlite::Error>| is_listing(answer, r),
{
    let answer = query_rows(conn, SELECT_ALL, None);
    let ghost seen = answer;
    let r = listed(answer);
    proof {
        assert(is_listing(seen, r));
    }
    r
}

/// Asks the database for the rows with the identifier `id` and looks up what it
/// answered: the record with that identifier, or nothing where the store has none.
/// Whatever the database answered, the result is the lookup of that answer.
pub fn get_bisection(conn: &rusqlite::Connection, id: u128) -> (r: Result<
    Option<Bisection>,
    StoreError,
>)
    ensures
        exists|answer: Result<Vec<StoredRow>, rusqlite::Error>| is_lookup(answer, r),
{
    let answer = query_rows(conn, SELECT_ONE, Some(id));
    let ghost seen = answer;
    let r = found(answer);
    proof {
        assert(is_lookup(seen, r));
    }
    r
}

} // verus!
