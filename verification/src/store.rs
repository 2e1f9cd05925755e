//! The durable store: one SQLite table of appointment rows, reached
//! through a narrow CRUD surface. The database engine is trusted to move
//! bytes; everything the rows mean — how a record is rendered for the
//! table and how stored text is read back, with malformed rows skipped
//! rather than aborting the load — is verified here.

use vstd::prelude::*;
use crate::appointment::{Appointment, valid_date, valid_time, valid_records};
use crate::codec::{date_chars, format_date, format_time, lemma_date_round_trip,
    lemma_time_round_trip, parse_date, parse_date_spec, parse_time, parse_time_spec, time_chars};

verus! {

#[verifier::external_type_specification]
#[verifier::external_body]
pub struct ExConnection(rusqlite::Connection);

#[verifier::external_type_specification]
#[verifier::external_body]
pub struct ExSqlError(rusqlite::Error);

/// A store open/read/write failure, carrying the engine's message.
#[derive(Debug)]
pub struct PersistenceError {
    pub message: String,
}

/// One raw table row, exactly as the engine returns it: the date and the
/// time still as stored text.
#[derive(Debug)]
pub struct RawRow {
    pub id: i64,
    pub date_text: String,
    pub time_text: String,
    pub description: String,
    pub location: String,
}

impl Clone for RawRow {
    fn clone(&self) -> (r: Self)
        ensures
            r == *self,
    {
        RawRow {
            id: self.id,
            date_text: self.date_text.clone(),
            time_text: self.time_text.clone(),
            description: self.description.clone(),
            location: self.location.clone(),
        }
    }
}

/// Relies on `rusqlite::Connection::open`: opens (or creates) the
/// database file at `path`. Whether it succeeds depends on the disk, so
/// nothing is promised of the outcome.
#[verifier::external_body]
fn db_open(path: &str) -> Result<rusqlite::Connection, rusqlite::Error> {
    rusqlite::Connection::open(path)
}

/// Relies on `rusqlite::Connection::open_in_memory`: a fresh, empty
/// in-memory database.
#[verifier::external_body]
fn db_open_in_memory() -> Result<rusqlite::Connection, rusqlite::Error> {
    rusqlite::Connection::open_in_memory()
}

/// Relies on `rusqlite::Connection::execute` with no parameters: runs one
/// SQL statement; `Ok` carries the number of rows changed.
#[verifier::external_body]
fn db_execute(conn: &rusqlite::Connection, sql: &str) -> Result<usize, rusqlite::Error> {
    conn.execute(sql, [])
}

/// Relies on `rusqlite::Connection::execute` with four text parameters
/// bound to `?1` through `?4`.
#[verifier::external_body]
fn db_execute_texts(
    conn: &rusqlite::Connection,
    sql: &str,
    p1: &str,
    p2: &str,
    p3: &str,
    p4: &str,
) -> Result<usize, rusqlite::Error> {
    conn.execute(sql, (p1, p2, p3, p4))
}

/// Relies on `rusqlite::Connection::execute` with one integer parameter
/// bound to `?1`.
#[verifier::external_body]
fn db_execute_id(conn: &rusqlite::Connection, sql: &str, id: i64) -> Result<
    usize,
    rusqlite::Error,
> {
    conn.execute(sql, [id])
}

/// Relies on `rusqlite::Connection::last_insert_rowid`: the rowid of the
/// most recent successful INSERT on this connection.
#[verifier::external_body]
fn db_last_insert_rowid(conn: &rusqlite::Connection) -> i64 {
    conn.last_insert_rowid()
}

/// Relies on `rusqlite::Connection::prepare` and
/// `rusqlite::Statement::query_map`: runs the query and hands back every
/// row's five columns as plain values. What comes back depends on what is
/// in the database, so nothing is promised of the outcome.
#[verifier::external_body]
fn db_query_rows(conn: &rusqlite::Connection, sql: &str) -> Result<Vec<RawRow>, rusqlite::Error> {
    let mut stmt = conn.prepare(sql)?;
    let rows = stmt.query_map(
        [],
        |row| Ok(RawRow {
            id: row.get(0)?,
            date_text: row.get(1)?,
            time_text: row.get(2)?,
            description: row.get(3)?,
            location: row.get(4)?,
        }),
    )?;
    rows.collect()
}

/// Relies on `rusqlite::Error`'s `Display` implementation for a
/// human-readable message.
#[verifier::external_body]
fn db_error_message(e: &rusqlite::Error) -> String {
    e.to_string()
}

fn persistence_error(e: &rusqlite::Error) -> PersistenceError {
    PersistenceError { message: db_error_message(e) }
}

/// Whether a stored row's date and time text both parse.
pub open spec fn row_parses(r: RawRow) -> bool {
    parse_date_spec(r.date_text@) is Some && parse_time_spec(r.time_text@) is Some
}

/// The appointment a well-formed stored row denotes.
pub open spec fn row_appointment(r: RawRow) -> Appointment {
    Appointment {
        id: Some(r.id),
        date: parse_date_spec(r.date_text@)->0,
        time: parse_time_spec(r.time_text@)->0,
        description: r.description,
        location: r.location,
    }
}

/// The appointments of the rows that parse, in row order.
pub open spec fn parsed_appointments(rows: Seq<RawRow>) -> Seq<Appointment>
    decreases rows.len(),
{
    if rows.len() == 0 {
        Seq::empty()
    } else {
        let rest = parsed_appointments(rows.drop_last());
        if row_parses(rows.last()) {
            rest.push(row_appointment(rows.last()))
        } else {
            rest
        }
    }
}

/// How many rows fail to parse and are skipped.
pub open spec fn skipped_count(rows: Seq<RawRow>) -> nat
    decreases rows.len(),
{
    if rows.len() == 0 {
        0
    } else {
        skipped_count(rows.drop_last()) + (if row_parses(rows.last()) {
            0nat
        } else {
            1nat
        })
    }
}

/// Law: persisting reads back identically. The row `create` writes for a
/// valid appointment — its date as `YYYY-MM-DD`, its time as `HH:MM`, the
/// texts verbatim — parses back to exactly that appointment, under the id
/// the store assigned.
pub proof fn lemma_row_round_trip(a: Appointment, id: i64, row: RawRow)
    requires
        valid_date(a.date),
        valid_time(a.time),
        row.id == id,
        row.date_text@ == date_chars(a.date),
        row.time_text@ == time_chars(a.time),
        row.description == a.description,
        row.location == a.location,
    ensures
        row_parses(row),
        row_appointment(row) == (Appointment {
            id: Some(id),
            date: a.date,
            time: a.time,
            description: a.description,
            location: a.location,
        }),
{
    lemma_date_round_trip(a.date);
    lemma_time_round_trip(a.time);
}

/// What a completed load hands the caller: the readable records plus a
/// warning count of malformed rows that were skipped.
pub struct LoadOutcome {
    pub appointments: Vec<Appointment>,
    pub skipped: usize,
}

/// Every appointment read back from rows has an id and a valid date and
/// time: a row only parses into valid values.
pub proof fn lemma_parsed_valid(rows: Seq<RawRow>)
    ensures
        valid_records(parsed_appointments(rows)),
        parsed_appointments(rows).len() + skipped_count(rows) == rows.len(),
    decreases rows.len(),
{
    if rows.len() == 0 {
    } else {
        lemma_parsed_valid(rows.drop_last());
        let rest = parsed_appointments(rows.drop_last());
        assert forall|i: int| 0 <= i < parsed_appointments(rows).len() implies {
            let a = #[trigger] parsed_appointments(rows)[i];
            a.id is Some && valid_date(a.date) && valid_time(a.time)
        } by {
            if row_parses(rows.last()) && i == rest.len() {
                assert(parsed_appointments(rows)[i] == row_appointment(rows.last()));
            } else {
                assert(parsed_appointments(rows)[i] == rest[i]);
            }
        }
    }
}

/// Turn raw rows into appointments, skipping (and counting) each
/// malformed row instead of failing the whole load.
pub fn parse_records(rows: &Vec<RawRow>) -> (r: (Vec<Appointment>, usize))
    ensures
        r.0@ == parsed_appointments(rows@),
        r.1 == skipped_count(rows@),
{
    let n = rows.len();
    let mut out: Vec<Appointment> = Vec::new();
    let mut skipped: usize = 0;
    let mut i: usize = 0;
    while i < n
        invariant
            n == rows@.len(),
            i <= n,
            out@ == parsed_appointments(rows@.take(i as int)),
            skipped as nat == skipped_count(rows@.take(i as int)),
            skipped <= i,
        decreases n - i,
    {
        proof {
            assert(rows@.take(i as int + 1).drop_last() =~= rows@.take(i as int));
            assert(rows@.take(i as int + 1).last() == rows@[i as int]);
        }
        let row = rows[i].clone();
        let date = parse_date(row.date_text.as_str());
        let time = parse_time(row.time_text.as_str());
        match (date, time) {
            (Some(d), Some(t)) => {
                let a = Appointment {
                    id: Some(row.id),
                    date: d,
                    time: t,
                    description: row.description,
                    location: row.location,
                };
                proof {
                    assert(a == row_appointment(rows@[i as int]));
                }
                out.push(a);
            },
            _ => {
                skipped = skipped + 1;
            },
        }
        i += 1;
    }
    proof {
        assert(rows@.take(n as int) =~= rows@);
    }
    (out, skipped)
}

/// The durable persistence layer: one table of appointment rows.
pub struct Store {
    conn: rusqlite::Connection,
}

impl Store {
    fn from_connection(conn: rusqlite::Connection) -> Result<Store, PersistenceError> {
        let created = db_execute(
            &conn,
            "CREATE TABLE IF NOT EXISTS termine (id INTEGER PRIMARY KEY, datum TEXT NOT NULL, uhrzeit TEXT NOT NULL, beschreibung TEXT NOT NULL, ort TEXT NOT NULL)",
        );
        match created {
            Ok(_) => Ok(Store { conn }),
            Err(e) => Err(persistence_error(&e)),
        }
    }

    /// Open (or create) the database file at `path` and make sure the
    /// appointment table exists.
    pub fn open(path: &str) -> Result<Store, PersistenceError> {
        match db_open(path) {
            Ok(conn) => Store::from_connection(conn),
            Err(e) => Err(persistence_error(&e)),
        }
    }

    /// A fresh store in memory, gone when dropped: the same contract as a
    /// file-backed store, without the file.
    pub fn open_in_memory() -> Result<Store, PersistenceError> {
        match db_open_in_memory() {
            Ok(conn) => Store::from_connection(conn),
            Err(e) => Err(persistence_error(&e)),
        }
    }

    /// Persist one not-yet-stored appointment; `Ok` carries the id the
    /// engine assigned. The record is written exactly as `YYYY-MM-DD` and
    /// `HH:MM` text, so a later load parses it back unchanged.
    pub fn create(&self, a: &Appointment) -> Result<i64, PersistenceError>
        requires
            valid_date(a.date),
            valid_time(a.time),
    {
        let date_text = format_date(&a.date);
        let time_text = format_time(&a.time);
        let written = db_execute_texts(
            &self.conn,
            "INSERT INTO termine (datum, uhrzeit, beschreibung, ort) VALUES (?1, ?2, ?3, ?4)",
            date_text.as_str(),
            time_text.as_str(),
            a.description.as_str(),
            a.location.as_str(),
        );
        match written {
            Ok(_) => Ok(db_last_insert_rowid(&self.conn)),
            Err(e) => Err(persistence_error(&e)),
        }
    }

    /// Delete the row with the given id; deleting an absent id succeeds
    /// and changes nothing (idempotent by design).
    pub fn delete(&self, id: i64) -> Result<(), PersistenceError> {
        match db_execute_id(&self.conn, "DELETE FROM termine WHERE id = ?1", id) {
            Ok(_) => Ok(()),
            Err(e) => Err(persistence_error(&e)),
        }
    }

    /// Read every stored row back, in stored order, skipping malformed
    /// rows: whatever rows the engine returns, the outcome is exactly
    /// their parse, and every loaded record has an id and a valid date
    /// and time.
    pub fn load(&self) -> (r: Result<LoadOutcome, PersistenceError>)
        ensures
            match r {
                Ok(outcome) => exists|rows: Seq<RawRow>|
                    outcome.appointments@ == parsed_appointments(rows) && outcome.skipped as nat
                        == #[trigger] skipped_count(rows),
                Err(_) => true,
            },
            match r {
                Ok(outcome) => valid_records(outcome.appointments@),
                Err(_) => true,
            },
    {
        let rows = db_query_rows(
            &self.conn,
            "SELECT id, datum, uhrzeit, beschreibung, ort FROM termine",
        );
        match rows {
            Ok(rows) => {
                let (appointments, skipped) = parse_records(&rows);
                proof {
                    lemma_parsed_valid(rows@);
                }
                Ok(LoadOutcome { appointments, skipped })
            },
            Err(e) => Err(persistence_error(&e)),
        }
    }
}

} // verus!
