use crate::statement::{row_matches, table, Column, SqlValue, Statement};
use vstd::prelude::*;

verus! {

/// A connection of `rusqlite`; nothing of what it holds is visible here.
#[verifier::external_type_specification]
#[verifier::external_body]
pub struct ExConnection(rusqlite::Connection);

/// An open transaction of `rusqlite`; it rolls back when it is dropped without a commit.
#[verifier::external_type_specification]
#[verifier::external_body]
pub struct ExTransaction<'conn>(rusqlite::Transaction<'conn>);

/// An error of `rusqlite`.
#[verifier::external_type_specification]
#[verifier::external_body]
pub struct ExSqliteError(rusqlite::Error);

/// A value of the engine, as `rusqlite` holds it.
#[verifier::external_type_specification]
#[verifier::external_body]
pub struct ExValue(rusqlite::types::Value);

/// The list as `rusqlite` binds it where a statement reads `rarray(..)`: each integer as
/// `rusqlite::types::Value::from` gives it, behind an `Rc`.
#[verifier::external_body]
pub(crate) fn array_of(list: &Vec<i64>) -> (array: std::rc::Rc<Vec<rusqlite::types::Value>>) {
    std::rc::Rc::new(list.iter().map(|i| rusqlite::types::Value::from(*i)).collect())
}

/// `rusqlite::Connection::execute` on the statement's text with its parameters bound in
/// order. On success the engine's count of changed rows comes back; nothing is claimed of
/// it, nor of when the call fails.
#[verifier::external_body]
pub(crate) fn execute(conn: &rusqlite::Connection, st: &Statement) -> (r: Result<
    usize,
    rusqlite::Error,
>) {
    let bound = st.params.iter().map(|p| -> Box<dyn rusqlite::ToSql + '_> {
        match p {
            SqlValue::Integer(i) => Box::new(i),
            SqlValue::Text(s) => Box::new(s),
            SqlValue::Integers(v) => Box::new(array_of(v)),
        }
    });
    conn.execute(st.sql, rusqlite::params_from_iter(bound))
}

/// `rusqlite::Connection::prepare` and `rusqlite::Statement::query_map` on the statement's
/// text with its parameters bound in order; each cell of each row is read with
/// `rusqlite::Row::get` as the statement's column at that place asks. Claimed is only the
/// shape: every row that comes back has one cell for each column, of the column's kind.
/// Which rows come back, and whether the call fails, is the engine's.
#[verifier::external_body]
pub(crate) fn query(conn: &rusqlite::Connection, st: &Statement) -> (r: Result<
    Vec<Vec<SqlValue>>,
    rusqlite::Error,
>)
    ensures
        r matches Ok(rows) ==> forall|i: int|
            0 <= i < rows.len() ==> row_matches(#[trigger] table(rows@)[i], st.columns@),
{
    let bound = st.params.iter().map(|p| -> Box<dyn rusqlite::ToSql + '_> {
        match p {
            SqlValue::Integer(i) => Box::new(i),
            SqlValue::Text(s) => Box::new(s),
            SqlValue::Integers(v) => Box::new(array_of(v)),
        }
    });
    let read = |row: &rusqlite::Row<'_>| st.columns.iter().enumerate().map(|(at, c)| match c {
        Column::Integer => row.get(at).map(SqlValue::Integer),
        Column::Text => row.get(at).map(SqlValue::Text),
    }).collect();
    conn.prepare(st.sql)?.query_map(rusqlite::params_from_iter(bound), read)?.collect()
}

/// `rusqlite::Connection::last_insert_rowid`: the row id of the latest successful insert
/// on this connection, as the engine reports it.
#[verifier::external_body]
pub(crate) fn last_insert_rowid(conn: &rusqlite::Connection) -> (id: i64) {
    conn.last_insert_rowid()
}

/// `rusqlite::Connection::transaction`: opens a transaction on the connection.
#[verifier::external_body]
pub(crate) fn begin<'a>(conn: &'a mut rusqlite::Connection) -> (r: Result<
    rusqlite::Transaction<'a>,
    rusqlite::Error,
>) {
    conn.transaction()
}

/// The connection a transaction runs on, by `Deref` for `rusqlite::Transaction`.
#[verifier::external_body]
pub(crate) fn connection_of<'a, 'conn>(tx: &'a rusqlite::Transaction<'conn>) -> (conn:
    &'a rusqlite::Connection) {
    tx
}

/// `rusqlite::Transaction::commit`: consumes the transaction and commits it.
#[verifier::external_body]
pub(crate) fn commit_transaction(tx: rusqlite::Transaction<'_>) -> (r: Result<
    (),
    rusqlite::Error,
>) {
    tx.commit()
}

/// `rusqlite::vtab::array::load_module`: registers the table-valued function `rarray`.
#[verifier::external_body]
pub(crate) fn load_array_module(conn: &rusqlite::Connection) -> (r: Result<(), rusqlite::Error>) {
    rusqlite::vtab::array::load_module(conn)
}

/// `rusqlite::Error::sqlite_extended_error_code`: the engine's extended result code, where
/// the error is a failure of an engine call, and `None` for every other error.
#[verifier::external_body]
pub(crate) fn extended_code(e: &rusqlite::Error) -> (code: Option<i32>) {
    e.sqlite_extended_error_code()
}

} // verus!
