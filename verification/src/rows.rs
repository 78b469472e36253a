//! The rows of the history, as they are stored and as they are listed.
//!
//! A row carries no identifier of its own: the identifier is the key under
//! which the relation holds the row.

use vstd::prelude::*;
use crate::text::{append_decimal, decimal};

verus! {

/// Where a command ran: a host and a directory on it.
#[derive(Debug)]
pub struct Place {
    pub host: String,
    pub directory: String,
}

impl View for Place {
    type V = (Seq<char>, Seq<char>);

    open spec fn view(&self) -> (Seq<char>, Seq<char>) {
        (self.host@, self.directory@)
    }
}

/// One tracked run of a command. It is open until it is closed with an exit
/// code and a duration.
#[derive(Clone, Copy, Debug, PartialEq, Eq, Structural)]
pub struct Execution {
    pub command_id: i64,
    pub place_id: i64,
    pub exit_code: Option<i64>,
    pub start_time: i64,
    pub duration: Option<i64>,
}

impl Execution {
    /// The row as it is right after the start of a run.
    pub open spec fn opened(command_id: i64, place_id: i64, start_time: i64) -> Execution {
        Execution { command_id, place_id, exit_code: None, start_time, duration: None }
    }

    /// This row, closed with `exit_code` at `end_time`.
    pub open spec fn closed_at(self, exit_code: i64, end_time: i64) -> Execution {
        Execution {
            exit_code: Some(exit_code),
            duration: Some((end_time - self.start_time) as i64),
            ..self
        }
    }

    /// Whether the time from the start of this run to `end_time` is an `i64`.
    pub open spec fn can_close_at(self, end_time: i64) -> bool {
        i64::MIN <= end_time - self.start_time <= i64::MAX
    }

    /// Whether the run has not been closed yet.
    pub open spec fn is_open(self) -> bool {
        self.exit_code is None && self.duration is None
    }
}

/// What a listing says of one execution, as a mathematical value.
pub struct EntryView {
    pub execution_id: int,
    pub exit_code: Option<i64>,
    pub directory: Seq<char>,
    pub text: Seq<char>,
}

/// One row of the join of the executions with their commands and places.
#[derive(Debug)]
pub struct HistoryEntry {
    pub execution_id: i64,
    pub exit_code: Option<i64>,
    pub directory: String,
    pub text: String,
}

impl View for HistoryEntry {
    type V = EntryView;

    open spec fn view(&self) -> EntryView {
        EntryView {
            execution_id: self.execution_id as int,
            exit_code: self.exit_code,
            directory: self.directory@,
            text: self.text@,
        }
    }
}

/// What is shown of one execution, as a mathematical value.
pub struct RowView {
    pub execution_id: int,
    pub exit_code: i64,
    pub directory: Seq<char>,
    pub text: Seq<char>,
}

/// One execution as it is shown: an execution that is still open is shown
/// with exit code 0.
#[derive(Debug)]
pub struct HistoryRow {
    pub execution_id: i64,
    pub exit_code: i64,
    pub directory: String,
    pub text: String,
}

impl View for HistoryRow {
    type V = RowView;

    open spec fn view(&self) -> RowView {
        RowView {
            execution_id: self.execution_id as int,
            exit_code: self.exit_code,
            directory: self.directory@,
            text: self.text@,
        }
    }
}

impl EntryView {
    /// The row that is shown for this entry.
    pub open spec fn shown(self) -> RowView {
        RowView {
            execution_id: self.execution_id,
            exit_code: match self.exit_code {
                Some(code) => code,
                None => 0,
            },
            directory: self.directory,
            text: self.text,
        }
    }
}

impl RowView {
    /// The line that lists this row: identifier, exit code, directory and
    /// command text, each behind its label, with a tab before each label but
    /// the first.
    pub open spec fn line(self) -> Seq<char> {
        "id: "@ + decimal(self.execution_id) + "\texit: "@ + decimal(self.exit_code as int)
            + "\tdir: "@ + self.directory + "\targv: "@ + self.text
    }
}

impl HistoryRow {
    /// The line that lists this row.
    pub fn line(&self) -> (line: String)
        ensures
            line@ == self@.line(),
    {
        let mut line = String::new();
        line.append("id: ");
        append_decimal(&mut line, self.execution_id);
        line.append("\texit: ");
        append_decimal(&mut line, self.exit_code);
        line.append("\tdir: ");
        line.append(self.directory.as_str());
        line.append("\targv: ");
        line.append(self.text.as_str());
        assert(line@ =~= self@.line());
        line
    }
}

impl HistoryEntry {
    /// The row that is shown for this entry.
    pub fn shown(&self) -> (row: HistoryRow)
        ensures
            row@ == self@.shown(),
    {
        let exit_code: i64 = match self.exit_code {
            Some(code) => code,
            None => 0,
        };
        HistoryRow {
            execution_id: self.execution_id,
            exit_code,
            directory: self.directory.clone(),
            text: self.text.clone(),
        }
    }
}

/// The entries of a listing as mathematical values.
pub open spec fn entry_views(entries: Seq<HistoryEntry>) -> Seq<EntryView> {
    entries.map_values(|e: HistoryEntry| e@)
}

/// The rows of a listing as mathematical values.
pub open spec fn row_views(rows: Seq<HistoryRow>) -> Seq<RowView> {
    rows.map_values(|r: HistoryRow| r@)
}

/// The outcome of reading the join, as a mathematical value.
pub open spec fn entries_outcome<E>(found: Result<Vec<HistoryEntry>, E>) -> Result<
    Seq<EntryView>,
    E,
> {
    match found {
        Ok(entries) => Ok(entry_views(entries@)),
        Err(e) => Err(e),
    }
}

/// The outcome of a listing, as a mathematical value.
pub open spec fn rows_outcome<E>(listed: Result<Vec<HistoryRow>, E>) -> Result<Seq<RowView>, E> {
    match listed {
        Ok(rows) => Ok(row_views(rows@)),
        Err(e) => Err(e),
    }
}

/// The rows that are shown for the entries of a join.
pub open spec fn shown_rows(entries: Seq<EntryView>) -> Seq<RowView> {
    entries.map_values(|e: EntryView| e.shown())
}

/// Turns the entries of a join into the rows that are shown for them.
pub fn show_all(entries: &Vec<HistoryEntry>) -> (rows: Vec<HistoryRow>)
    ensures
        row_views(rows@) == shown_rows(entry_views(entries@)),
{
    let mut rows: Vec<HistoryRow> = Vec::new();
    let mut i: usize = 0;
    while i < entries.len()
        invariant
            i <= entries@.len(),
            rows@.len() == i,
            forall|k: int| 0 <= k < i ==> rows@[k]@ == entries@[k]@.shown(),
        decreases entries@.len() - i,
    {
        rows.push(entries[i].shown());
        i = i + 1;
    }
    assert(row_views(rows@) =~= shown_rows(entry_views(entries@)));
    rows
}

} // verus!
