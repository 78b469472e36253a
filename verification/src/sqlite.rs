//! The history in an SQLite database: the statements of a session as SQL,
//! and the loop that serves a session from a connection.

use rusqlite::{Connection, Error, OptionalExtension, ToSql};
use vstd::prelude::*;
use crate::error::StoreError;
use crate::rows::{entry_views, HistoryEntry};
use crate::session::{
    answers, lemma_advance_stays_in_bounds, lemma_open_serves, Invocation, Outcome, OutcomeView,
    Reply, ReplyView, Session, Statement, StatementView, Step,
};

verus! {

/// `rusqlite::Connection`, a handle to an open database. Nothing is known of
/// what it holds.
#[verifier::external_type_specification]
#[verifier::external_body]
pub struct ExConnection(Connection);

/// `rusqlite::Error`, what a call into the database failed with.
#[verifier::external_type_specification]
#[verifier::external_body]
pub struct ExError(Error);

/// Creates the three relations unless they exist. A command text, and a pair
/// of host and directory, is unique: an insert that would repeat one is
/// ignored.
pub const CREATE_RELATIONS: &'static str =
    "CREATE TABLE IF NOT EXISTS commands (
        id INTEGER PRIMARY KEY,
        argv TEXT,
        UNIQUE(argv) ON CONFLICT IGNORE
    );
    CREATE TABLE IF NOT EXISTS places (
        id INTEGER PRIMARY KEY,
        host TEXT,
        dir TEXT,
        UNIQUE(host, dir) ON CONFLICT IGNORE
    );
    CREATE TABLE IF NOT EXISTS history (
        id INTEGER PRIMARY KEY,
        command_id INT,
        place_id INT,
        exit_code INT,
        start_time INT,
        duration INT
    );";

/// Inserts a command text; a text that is there already is left alone.
pub const INSERT_COMMAND: &'static str = "INSERT OR IGNORE INTO commands (argv) VALUES (?1)";

/// Reads the identifier of a command text.
pub const SELECT_COMMAND: &'static str = "SELECT id FROM commands WHERE argv = ?1";

/// Inserts a place; a pair of host and directory that is there already is
/// left alone.
pub const INSERT_PLACE: &'static str = "INSERT OR IGNORE INTO places (host, dir) VALUES (?1, ?2)";

/// Reads the identifier of a place.
pub const SELECT_PLACE: &'static str = "SELECT id FROM places WHERE host = ?1 AND dir = ?2";

/// Inserts an open execution: command, place and start time.
pub const INSERT_EXECUTION: &'static str =
    "INSERT INTO history (command_id, place_id, start_time) VALUES (?1, ?2, ?3)";

/// Closes the execution with the identifier in the first parameter: sets
/// the exit code, and as the duration the time from the recorded start to
/// the end time in the third.
pub const CLOSE_EXECUTION: &'static str =
    "UPDATE history SET exit_code = ?2, duration = ?3 - start_time WHERE id = ?1";

/// Reads every execution with the directory of its place and the text of
/// its command, in the order of the executions' identifiers.
pub const SELECT_HISTORY: &'static str =
    "SELECT history.id, history.exit_code, places.dir, commands.argv
    FROM history
    JOIN commands ON history.command_id = commands.id
    JOIN places ON history.place_id = places.id
    ORDER BY history.id";

/// The SQL of a statement.
pub open spec fn sql_of(statement: StatementView) -> Seq<char> {
    match statement {
        StatementView::CreateRelations => CREATE_RELATIONS@,
        StatementView::InsertCommand { .. } => INSERT_COMMAND@,
        StatementView::SelectCommand { .. } => SELECT_COMMAND@,
        StatementView::InsertPlace { .. } => INSERT_PLACE@,
        StatementView::SelectPlace { .. } => SELECT_PLACE@,
        StatementView::InsertExecution { .. } => INSERT_EXECUTION@,
        StatementView::CloseExecution { .. } => CLOSE_EXECUTION@,
        StatementView::SelectHistory => SELECT_HISTORY@,
    }
}

/// The texts that a statement binds to its SQL, in the order of their
/// parameters.
pub open spec fn texts_of(statement: StatementView) -> Seq<Seq<char>> {
    match statement {
        StatementView::InsertCommand { text } => seq![text],
        StatementView::SelectCommand { text } => seq![text],
        StatementView::InsertPlace { host, directory } => seq![host, directory],
        StatementView::SelectPlace { host, directory } => seq![host, directory],
        _ => Seq::empty(),
    }
}

/// The integers that a statement binds to its SQL, in the order of their
/// parameters.
pub open spec fn integers_of(statement: StatementView) -> Seq<i64> {
    match statement {
        StatementView::InsertExecution { command_id, place_id, start_time } => seq![
            command_id,
            place_id,
            start_time,
        ],
        StatementView::CloseExecution { id, exit_code, end_time } => seq![id, exit_code, end_time],
        _ => Seq::empty(),
    }
}

impl Statement {
    /// The SQL of the statement.
    pub fn sql(&self) -> (sql: &'static str)
        ensures
            sql@ == sql_of(self@),
    {
        match self {
            Statement::CreateRelations => CREATE_RELATIONS,
            Statement::InsertCommand { .. } => INSERT_COMMAND,
            Statement::SelectCommand { .. } => SELECT_COMMAND,
            Statement::InsertPlace { .. } => INSERT_PLACE,
            Statement::SelectPlace { .. } => SELECT_PLACE,
            Statement::InsertExecution { .. } => INSERT_EXECUTION,
            Statement::CloseExecution { .. } => CLOSE_EXECUTION,
            Statement::SelectHistory => SELECT_HISTORY,
        }
    }

    /// The texts that the statement binds, in the order of their parameters.
    pub fn texts(&self) -> (texts: Vec<String>)
        ensures
            crate::text::texts(texts@) == texts_of(self@),
    {
        let mut texts: Vec<String> = Vec::new();
        match self {
            Statement::InsertCommand { text } | Statement::SelectCommand { text } => {
                texts.push(text.clone());
            },
            Statement::InsertPlace { host, directory }
            | Statement::SelectPlace { host, directory } => {
                texts.push(host.clone());
                texts.push(directory.clone());
            },
            _ => {},
        }
        assert(crate::text::texts(texts@) =~= texts_of(self@));
        texts
    }

    /// The integers that the statement binds, in the order of their
    /// parameters.
    pub fn integers(&self) -> (integers: Vec<i64>)
        ensures
            integers@ == integers_of(self@),
    {
        let mut integers: Vec<i64> = Vec::new();
        match self {
            Statement::InsertExecution { command_id, place_id, start_time } => {
                integers.push(*command_id);
                integers.push(*place_id);
                integers.push(*start_time);
            },
            Statement::CloseExecution { id, exit_code, end_time } => {
                integers.push(*id);
                integers.push(*exit_code);
                integers.push(*end_time);
            },
            _ => {},
        }
        assert(integers@ =~= integers_of(self@));
        integers
    }
}

/// Runs every statement in `sql` by `rusqlite::Connection::execute_batch`.
/// Nothing is claimed of the outcome: it lies with the database.
#[verifier::external_body]
fn execute_batch(connection: &Connection, sql: &str) -> (done: Result<(), Error>) {
    connection.execute_batch(sql)
}

/// Runs one statement by `rusqlite::Connection::execute`, with the texts
/// bound to its first parameters and the integers to those after them, and
/// gives the number of rows that SQLite reports as changed. Nothing is
/// claimed of the outcome: it lies with the database.
#[verifier::external_body]
fn execute(connection: &Connection, sql: &str, texts: &Vec<String>, integers: &Vec<i64>) -> (changed:
    Result<usize, Error>) {
    let texts = texts.iter().map(|text| text as &dyn ToSql);
    let integers = integers.iter().map(|integer| integer as &dyn ToSql);
    connection.execute(sql, rusqlite::params_from_iter(texts.chain(integers)))
}

/// The identifier that `rusqlite::Connection::last_insert_rowid` reports for
/// the last insert on this connection. Nothing is claimed of it.
#[verifier::external_body]
fn last_insert_rowid(connection: &Connection) -> (id: i64) {
    connection.last_insert_rowid()
}

/// Runs a lookup by `rusqlite::Connection::query_row`, with the texts bound
/// to its parameters, and gives the integer in the first column of the first
/// row, or nothing where there is no row. Nothing is claimed of the outcome:
/// it lies with the database.
#[verifier::external_body]
fn query_id(connection: &Connection, sql: &str, texts: &Vec<String>) -> (found: Result<
    Option<i64>,
    Error,
>) {
    connection.query_row(sql, rusqlite::params_from_iter(texts.iter()), |row| row.get(0)).optional()
}

/// Runs the join by `rusqlite::Connection::prepare` and
/// `rusqlite::Statement::query_map`, and gives its rows in the order in
/// which SQLite hands them out: identifier, exit code, directory and text
/// from the four columns. Nothing is claimed of the outcome: it lies with
/// the database.
#[verifier::external_body]
fn query_entries(connection: &Connection, sql: &str) -> (found: Result<Vec<HistoryEntry>, Error>) {
    let mut prepared = connection.prepare(sql)?;
    let rows = prepared.query_map(
        (),
        |row|
            Ok(
                HistoryEntry {
                    execution_id: row.get(0)?,
                    exit_code: row.get(1)?,
                    directory: row.get(2)?,
                    text: row.get(3)?,
                },
            ),
    )?;
    rows.collect()
}

/// What the database answered to a statement, and the error it failed with
/// where the database reported one.
#[derive(Debug)]
pub struct Answer {
    pub reply: Reply,
    pub cause: Option<Error>,
}

impl Answer {
    /// The answer to the creation of the relations.
    pub fn to_creation(done: Result<(), Error>) -> (answer: Answer)
        ensures
            match done {
                Ok(_) => answer.reply@ == ReplyView::Changed(0) && answer.cause is None,
                Err(error) => answer.reply@ == ReplyView::Failed && answer.cause == Some(error),
            },
    {
        match done {
            Ok(_) => Answer { reply: Reply::Changed(0), cause: None },
            Err(error) => Answer { reply: Reply::Failed, cause: Some(error) },
        }
    }

    /// The answer to a statement that changes rows: the number of rows that
    /// changed, or the failure.
    pub fn to_change(changed: Result<usize, Error>) -> (answer: Answer)
        ensures
            match changed {
                Ok(rows) => answer.reply@ == ReplyView::Changed(rows as u64) && answer.cause is None,
                Err(error) => answer.reply@ == ReplyView::Failed && answer.cause == Some(error),
            },
    {
        match changed {
            Ok(rows) => Answer { reply: Reply::Changed(rows as u64), cause: None },
            Err(error) => Answer { reply: Reply::Failed, cause: Some(error) },
        }
    }

    /// The answer to the insert of an execution, from the number of rows that
    /// changed and the identifier of the last row that the connection
    /// inserted: that identifier where exactly one row changed, and a
    /// failure in every other case.
    pub fn to_insert(changed: Result<usize, Error>, rowid: i64) -> (answer: Answer)
        ensures
            match changed {
                Ok(rows) => answer.cause is None && answer.reply@ == (if rows == 1 {
                    ReplyView::Inserted(rowid)
                } else {
                    ReplyView::Failed
                }),
                Err(error) => answer.reply@ == ReplyView::Failed && answer.cause == Some(error),
            },
    {
        match changed {
            Ok(rows) => if rows == 1 {
                Answer { reply: Reply::Inserted(rowid), cause: None }
            } else {
                Answer { reply: Reply::Failed, cause: None }
            },
            Err(error) => Answer { reply: Reply::Failed, cause: Some(error) },
        }
    }

    /// The answer to a lookup: the identifier that was found, or none, or
    /// the failure.
    pub fn to_lookup(found: Result<Option<i64>, Error>) -> (answer: Answer)
        ensures
            match found {
                Ok(id) => answer.reply@ == ReplyView::Found(id) && answer.cause is None,
                Err(error) => answer.reply@ == ReplyView::Failed && answer.cause == Some(error),
            },
    {
        match found {
            Ok(id) => Answer { reply: Reply::Found(id), cause: None },
            Err(error) => Answer { reply: Reply::Failed, cause: Some(error) },
        }
    }

    /// The answer to the reading of the join: its rows, or the failure.
    pub fn to_listing(found: Result<Vec<HistoryEntry>, Error>) -> (answer: Answer)
        ensures
            match found {
                Ok(entries) => answer.reply@ == ReplyView::Entries(entry_views(entries@))
                    && answer.cause is None,
                Err(error) => answer.reply@ == ReplyView::Failed && answer.cause == Some(error),
            },
    {
        match found {
            Ok(entries) => Answer { reply: Reply::Entries(entries), cause: None },
            Err(error) => Answer { reply: Reply::Failed, cause: Some(error) },
        }
    }
}

/// Hands one statement to the database behind `connection` and gives its
/// answer. What the database does with the statement is not known here; the
/// reply is one that answers the statement, and an error comes with a
/// failure only.
pub fn ask(connection: &Connection, statement: &Statement) -> (answer: Answer)
    ensures
        answers(statement@, answer.reply@),
        answer.cause is Some ==> answer.reply@ is Failed,
{
    match statement {
        Statement::CreateRelations => Answer::to_creation(
            execute_batch(connection, statement.sql()),
        ),
        Statement::InsertCommand { .. }
        | Statement::InsertPlace { .. }
        | Statement::CloseExecution { .. } => Answer::to_change(
            execute(connection, statement.sql(), &statement.texts(), &statement.integers()),
        ),
        Statement::InsertExecution { .. } => {
            let changed = execute(
                connection,
                statement.sql(),
                &statement.texts(),
                &statement.integers(),
            );
            Answer::to_insert(changed, last_insert_rowid(connection))
        },
        Statement::SelectCommand { .. } | Statement::SelectPlace { .. } => Answer::to_lookup(
            query_id(connection, statement.sql(), &statement.texts()),
        ),
        Statement::SelectHistory => Answer::to_listing(query_entries(connection, statement.sql())),
    }
}

/// Why an invocation did not succeed: the kind of the failure, and the error
/// of the database where it reported one.
#[derive(Debug)]
pub struct Failure {
    pub kind: StoreError,
    pub cause: Option<Error>,
}

/// The result of an invocation as a mathematical value, with the kind of the
/// failure for the failure.
pub open spec fn outcome_view(result: Result<Outcome, Failure>) -> Result<OutcomeView, StoreError> {
    match result {
        Ok(outcome) => Ok(outcome@),
        Err(failure) => Err(failure.kind),
    }
}

/// Serves `invocation` at the time `now` from the database behind
/// `connection`: asks it each statement of the session and hands each reply
/// back, until the session ends.
///
/// What the database holds is not known here, so nothing is said of its
/// replies but that each answers the statement it was asked with. The result
/// is what the session makes of those replies, and so one that the invocation
/// admits.
pub fn run(connection: &Connection, invocation: Invocation, now: i64) -> (result: Result<
    Outcome,
    Failure,
>)
    ensures
        invocation@.admits(outcome_view(result)),
        exists|replies: Seq<ReplyView>|
            invocation@.open(now).0.ends_with(
                invocation@.open(now).1,
                replies,
                outcome_view(result),
            ),
{
    let ghost asked = invocation@;
    let (mut session, mut statement) = Session::open(invocation, now);
    let ghost first = session@;
    let ghost first_statement = statement@;
    let ghost seen: Seq<ReplyView> = Seq::empty();
    proof {
        lemma_open_serves(asked, now);
        assert forall|rest: Seq<ReplyView>, end: Result<OutcomeView, StoreError>|
            session@.ends_with(statement@, rest, end) implies first.ends_with(
            first_statement,
            seen + rest,
            end,
        ) by {
            assert(seen + rest =~= rest);
        }
    }
    loop
        invariant
            asked == invocation@,
            (first, first_statement) == asked.open(now),
            session@.serves(asked),
            forall|rest: Seq<ReplyView>, end: Result<OutcomeView, StoreError>|
                session@.ends_with(statement@, rest, end) ==> first.ends_with(
                    first_statement,
                    seen + rest,
                    end,
                ),
        decreases session@.remaining(),
    {
        let answer = ask(connection, &statement);
        let ghost reply = answer.reply@;
        let ghost before = session@;
        let ghost before_statement = statement@;
        let ghost before_seen = seen;
        proof {
            lemma_advance_stays_in_bounds(session@, asked, reply);
            seen = seen.push(reply);
        }
        let (next, step) = session.advance(answer.reply);
        match step {
            Step::Ask(following) => {
                proof {
                    assert forall|rest: Seq<ReplyView>, end: Result<OutcomeView, StoreError>|
                        next@.ends_with(following@, rest, end) implies first.ends_with(
                        first_statement,
                        seen + rest,
                        end,
                    ) by {
                        let longer = seq![reply] + rest;
                        assert(longer.first() == reply);
                        assert(longer.drop_first() =~= rest);
                        assert(before.ends_with(before_statement, longer, end));
                        assert(before_seen + longer =~= seen + rest);
                    }
                }
                session = next;
                statement = following;
            },
            Step::Done(outcome) => {
                proof {
                    let last = seq![reply];
                    assert(last.first() == reply);
                    assert(before.ends_with(before_statement, last, Ok(outcome@)));
                    assert(before_seen + last =~= seen);
                    assert(first.ends_with(first_statement, seen, Ok(outcome@)));
                }
                let result: Result<Outcome, Failure> = Ok(outcome);
                assert(asked.open(now).0.ends_with(asked.open(now).1, seen, outcome_view(result)));
                return result;
            },
            Step::Fail(kind) => {
                proof {
                    let last = seq![reply];
                    assert(last.first() == reply);
                    assert(before.ends_with(before_statement, last, Err(kind)));
                    assert(before_seen + last =~= seen);
                    assert(first.ends_with(first_statement, seen, Err(kind)));
                }
                let result: Result<Outcome, Failure> = Err(Failure { kind, cause: answer.cause });
                assert(asked.open(now).0.ends_with(asked.open(now).1, seen, outcome_view(result)));
                return result;
            },
        }
    }
}

} // verus!
