use crate::models::Count;
use crate::table::{
    dates_are_plain, is_crag_list_of, is_report_of, letter_text, no_grades, no_rows, Dimension,
};
use rusqlite::Connection;
use rusqlite::Error as SqlError;
use vstd::prelude::*;

verus! {

/// `rusqlite::Connection`, whose inside is not looked at.
#[verifier::external_type_specification]
#[verifier::external_body]
pub struct ExConnection(Connection);

/// The table `ascents` as the connection sees it: from the name, grade and crag of a route
/// to the text of the date under which its ascent is stored. The table's primary key makes
/// it a map. The store has one owner: nothing else writes to the database while the
/// connection is held.
pub uninterp spec fn stored_rows(conn: Connection) -> Map<
    (Seq<char>, Seq<char>, Seq<char>),
    Seq<char>,
>;

/// The table `grade_info` as the connection sees it: from the text of a grade, which is
/// its primary key, to its number and, where it has one, its letter.
pub uninterp spec fn stored_grades(conn: Connection) -> Map<Seq<char>, (int, Option<Seq<char>>)>;

/// Opens the database at `path` with `rusqlite::Connection::open`. Believed of it: a
/// connection sees finitely many rows.
#[verifier::external_body]
pub(crate) fn open_connection(path: &String) -> (opened: Result<Connection, SqlError>)
    ensures
        opened is Ok ==> stored_rows(opened->Ok_0).dom().finite(),
{
    Connection::open(path)
}

/// Creates the two tables with `Connection::execute_batch`. Believed of it: where it
/// succeeds both tables are new and hold no row.
#[verifier::external_body]
pub(crate) fn create_tables(conn: &mut Connection) -> (done: Result<(), SqlError>)
    ensures
        done is Ok ==> stored_rows(*final(conn)) == no_rows(),
        done is Ok ==> stored_grades(*final(conn)) == no_grades(),
{
    conn.execute_batch(
        "CREATE TABLE ascents(route TEXT NOT NULL, grade TEXT NOT NULL, crag TEXT NOT NULL, \
         date TEXT NOT NULL, PRIMARY KEY(route, grade, crag)); \
         CREATE TABLE grade_info(grade TEXT PRIMARY KEY, grade_number INTEGER NOT NULL, \
         grade_letter TEXT);",
    )
}

/// Adds one row to the table of grades with `Connection::execute`. Believed of it: where
/// it succeeds the table of grades holds the new row beside the old ones; where it fails
/// that table is as it was; the table of ascents is left as it was either way.
#[verifier::external_body]
pub(crate) fn insert_grade_info(
    conn: &mut Connection,
    value: &String,
    number: u32,
    letter: &Option<String>,
) -> (done: Result<(), SqlError>)
    ensures
        stored_rows(*final(conn)) == stored_rows(*old(conn)),
        done is Ok ==> stored_grades(*final(conn)) == stored_grades(*old(conn)).insert(
            value@,
            (number as int, letter_text(*letter)),
        ),
        done is Err ==> stored_grades(*final(conn)) == stored_grades(*old(conn)),
{
    conn.execute("INSERT INTO grade_info VALUES(?, ?, ?)", (value, number, letter))?;
    Ok(())
}

/// Looks up the date stored for a route, with `Connection::prepare` and
/// `Statement::query_map`. Believed of it: it finds the date of the row with that name,
/// grade and crag, or nothing where the table holds no such row.
#[verifier::external_body]
pub(crate) fn select_date(conn: &Connection, name: &String, grade: &String, crag: &String) -> (found:
    Result<Option<String>, SqlError>)
    ensures
        match found {
            Ok(Some(date)) => stored_rows(*conn).contains_key((name@, grade@, crag@))
                && stored_rows(*conn)[(name@, grade@, crag@)] == date@,
            Ok(None) => !stored_rows(*conn).contains_key((name@, grade@, crag@)),
            Err(_) => true,
        },
{
    let mut statement = conn.prepare(
        "SELECT date FROM ascents WHERE route = ? AND grade = ? AND crag = ?",
    )?;
    let mut rows = statement.query_map((name, grade, crag), |row| row.get::<usize, String>(0))?;
    rows.next().transpose()
}

/// Asks with `Statement::exists` whether a route has a row. Believed of it: the answer
/// is whether the table holds a row with that name, grade and crag.
#[verifier::external_body]
pub(crate) fn row_exists(conn: &Connection, name: &String, grade: &String, crag: &String) -> (found:
    Result<bool, SqlError>)
    ensures
        found is Ok ==> found->Ok_0 == stored_rows(*conn).contains_key((name@, grade@, crag@)),
{
    let mut statement = conn.prepare(
        "SELECT 1 FROM ascents WHERE route = ? AND grade = ? AND crag = ?",
    )?;
    statement.exists((name, grade, crag))
}

/// Stores a row with `Connection::execute`. Believed of it: where it succeeds the table
/// holds the new row beside the old ones; where it fails the table is as it was; the table
/// of grades is left as it was either way.
#[verifier::external_body]
pub(crate) fn insert_row(
    conn: &mut Connection,
    name: &String,
    grade: &String,
    crag: &String,
    date: &String,
) -> (done: Result<(), SqlError>)
    ensures
        done is Ok ==> stored_rows(*final(conn)) == stored_rows(*old(conn)).insert(
            (name@, grade@, crag@),
            date@,
        ),
        done is Err ==> stored_rows(*final(conn)) == stored_rows(*old(conn)),
        stored_grades(*final(conn)) == stored_grades(*old(conn)),
{
    conn.execute(
        "INSERT INTO ascents(route, grade, crag, date) VALUES(?, ?, ?, ?)",
        (name, grade, crag, date),
    )?;
    Ok(())
}

/// Removes the row of a route with `Connection::execute`. Believed of it: where it
/// succeeds the table holds the other rows and no row of that route; where it fails the
/// table is as it was; the table of grades is left as it was either way.
#[verifier::external_body]
pub(crate) fn delete_row(conn: &mut Connection, name: &String, grade: &String, crag: &String) -> (done:
    Result<(), SqlError>)
    ensures
        done is Ok ==> stored_rows(*final(conn)) == stored_rows(*old(conn)).remove(
            (name@, grade@, crag@),
        ),
        done is Err ==> stored_rows(*final(conn)) == stored_rows(*old(conn)),
        stored_grades(*final(conn)) == stored_grades(*old(conn)),
{
    conn.execute(
        "DELETE FROM ascents WHERE route = ? AND grade = ? AND crag = ?",
        (name, grade, crag),
    )?;
    Ok(())
}

/// Lists the crags with `Statement::query_map`. Believed of it: the statement yields each
/// crag that a row names, once, in ascending order.
#[verifier::external_body]
pub(crate) fn select_crags(conn: &Connection) -> (crags: Result<Vec<String>, SqlError>)
    ensures
        crags is Ok ==> is_crag_list_of(crags->Ok_0@, stored_rows(*conn)),
{
    let mut statement = conn.prepare("SELECT DISTINCT crag FROM ascents ORDER BY crag")?;
    let rows = statement.query_map((), |row| row.get::<usize, String>(0))?;
    rows.collect()
}

/// Counts the rows with `Connection::query_row`. Believed of it: the number is that of
/// the rows of the table, which are finitely many.
#[verifier::external_body]
pub(crate) fn count_rows(conn: &Connection) -> (count: Result<u32, SqlError>)
    ensures
        count is Ok ==> stored_rows(*conn).dom().finite() && count->Ok_0 == stored_rows(
            *conn,
        ).dom().len(),
{
    conn.query_row("SELECT count(*) FROM ascents", (), |row| row.get::<usize, u32>(0))
}

/// Counts the rows by the year of their date, with `Statement::query_map`. Believed of
/// it: where every stored date is in its plain form, the statement yields the report by
/// year.
#[verifier::external_body]
pub(crate) fn select_year_counts(conn: &Connection) -> (counts: Result<Vec<Count>, SqlError>)
    ensures
        counts is Ok && dates_are_plain(stored_rows(*conn)) ==> is_report_of(
            counts->Ok_0@,
            stored_rows(*conn),
            Dimension::Year,
        ),
{
    let mut statement = conn.prepare(
        "SELECT strftime('%Y', date) AS year, count(*) FROM ascents GROUP BY year ORDER BY year",
    )?;
    let rows = statement.query_map((), |row| Ok(Count::new(row.get(0)?, row.get(1)?)))?;
    rows.collect()
}

/// Counts the rows by crag, with `Statement::query_map`. Believed of it: the statement
/// yields the report by crag.
#[verifier::external_body]
pub(crate) fn select_crag_counts(conn: &Connection) -> (counts: Result<Vec<Count>, SqlError>)
    ensures
        counts is Ok ==> is_report_of(counts->Ok_0@, stored_rows(*conn), Dimension::Crag),
{
    let mut statement = conn.prepare(
        "SELECT crag, count(*) FROM ascents GROUP BY crag ORDER BY crag",
    )?;
    let rows = statement.query_map((), |row| Ok(Count::new(row.get(0)?, row.get(1)?)))?;
    rows.collect()
}

/// Counts the rows by grade, with `Statement::query_map`. Believed of it: the statement
/// yields the report by grade.
#[verifier::external_body]
pub(crate) fn select_grade_counts(conn: &Connection) -> (counts: Result<Vec<Count>, SqlError>)
    ensures
        counts is Ok ==> is_report_of(counts->Ok_0@, stored_rows(*conn), Dimension::Grade),
{
    let mut statement = conn.prepare(
        "SELECT grade, count(*) FROM ascents GROUP BY grade ORDER BY grade",
    )?;
    let rows = statement.query_map((), |row| Ok(Count::new(row.get(0)?, row.get(1)?)))?;
    rows.collect()
}

} // verus!
