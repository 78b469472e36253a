//! The course of one invocation, apart from the storage engine that serves it.
//!
//! A session asks the engine one statement at a time and decides, from each
//! reply, what to ask next, when it is done and how it has failed. It never
//! touches the engine itself, so the same session runs against the store in
//! memory and against a database.

use vstd::prelude::*;
use crate::error::StoreError;
use crate::rows::{
    entry_views, row_views, show_all, shown_rows, EntryView, HistoryEntry, HistoryRow, RowView,
};
use crate::text::{join_words, joined, texts};

verus! {

/// What the history is asked to do.
#[derive(Debug)]
pub enum Invocation {
    /// Create the relations.
    Init,
    /// Record that a command starts on `host` in `directory`.
    Start { host: String, directory: String, words: Vec<String> },
    /// Record that the execution `id` has ended with `exit_code`.
    End { id: i64, exit_code: i64 },
    /// List the history.
    List,
}

/// An invocation as a mathematical value.
pub enum InvocationView {
    Init,
    Start { host: Seq<char>, directory: Seq<char>, words: Seq<Seq<char>> },
    End { id: i64, exit_code: i64 },
    List,
}

impl View for Invocation {
    type V = InvocationView;

    open spec fn view(&self) -> InvocationView {
        match *self {
            Invocation::Init => InvocationView::Init,
            Invocation::Start { host, directory, words } => InvocationView::Start {
                host: host@,
                directory: directory@,
                words: texts(words@),
            },
            Invocation::End { id, exit_code } => InvocationView::End { id, exit_code },
            Invocation::List => InvocationView::List,
        }
    }
}

/// One statement for the storage engine.
#[derive(Debug)]
pub enum Statement {
    /// Create the three relations unless they exist.
    CreateRelations,
    /// Insert a command with this text; a text that is there is left alone.
    InsertCommand { text: String },
    /// Read the identifier of the command with this text.
    SelectCommand { text: String },
    /// Insert a place; a pair that is there is left alone.
    InsertPlace { host: String, directory: String },
    /// Read the identifier of the place with this host and directory.
    SelectPlace { host: String, directory: String },
    /// Insert an open execution and report its identifier.
    InsertExecution { command_id: i64, place_id: i64, start_time: i64 },
    /// Set exit code and duration of the execution with this identifier.
    CloseExecution { id: i64, exit_code: i64, end_time: i64 },
    /// Read the join of executions, commands and places.
    SelectHistory,
}

/// A statement as a mathematical value.
pub enum StatementView {
    CreateRelations,
    InsertCommand { text: Seq<char> },
    SelectCommand { text: Seq<char> },
    InsertPlace { host: Seq<char>, directory: Seq<char> },
    SelectPlace { host: Seq<char>, directory: Seq<char> },
    InsertExecution { command_id: i64, place_id: i64, start_time: i64 },
    CloseExecution { id: i64, exit_code: i64, end_time: i64 },
    SelectHistory,
}

impl View for Statement {
    type V = StatementView;

    open spec fn view(&self) -> StatementView {
        match *self {
            Statement::CreateRelations => StatementView::CreateRelations,
            Statement::InsertCommand { text } => StatementView::InsertCommand { text: text@ },
            Statement::SelectCommand { text } => StatementView::SelectCommand { text: text@ },
            Statement::InsertPlace { host, directory } => StatementView::InsertPlace {
                host: host@,
                directory: directory@,
            },
            Statement::SelectPlace { host, directory } => StatementView::SelectPlace {
                host: host@,
                directory: directory@,
            },
            Statement::InsertExecution {
                command_id,
                place_id,
                start_time,
            } => StatementView::InsertExecution { command_id, place_id, start_time },
            Statement::CloseExecution { id, exit_code, end_time } => StatementView::CloseExecution {
                id,
                exit_code,
                end_time,
            },
            Statement::SelectHistory => StatementView::SelectHistory,
        }
    }
}

/// What the storage engine answers to a statement.
#[derive(Debug)]
pub enum Reply {
    /// The statement ran and changed this many rows.
    Changed(u64),
    /// The lookup ran and found this identifier, or none.
    Found(Option<i64>),
    /// The insert created the row with this identifier.
    Inserted(i64),
    /// The rows of the join.
    Entries(Vec<HistoryEntry>),
    /// The engine could not run the statement.
    Failed,
}

/// A reply as a mathematical value.
pub enum ReplyView {
    Changed(u64),
    Found(Option<i64>),
    Inserted(i64),
    Entries(Seq<EntryView>),
    Failed,
}

impl View for Reply {
    type V = ReplyView;

    open spec fn view(&self) -> ReplyView {
        match *self {
            Reply::Changed(rows) => ReplyView::Changed(rows),
            Reply::Found(id) => ReplyView::Found(id),
            Reply::Inserted(id) => ReplyView::Inserted(id),
            Reply::Entries(entries) => ReplyView::Entries(entry_views(entries@)),
            Reply::Failed => ReplyView::Failed,
        }
    }
}

/// What an invocation that succeeded hands back.
#[derive(Debug)]
pub enum Outcome {
    /// The relations exist.
    Initialized,
    /// The execution with this identifier is open.
    Started(i64),
    /// The execution is closed.
    Closed,
    /// The rows of the history.
    Listed(Vec<HistoryRow>),
}

/// An outcome as a mathematical value.
pub enum OutcomeView {
    Initialized,
    Started(i64),
    Closed,
    Listed(Seq<RowView>),
}

impl View for Outcome {
    type V = OutcomeView;

    open spec fn view(&self) -> OutcomeView {
        match *self {
            Outcome::Initialized => OutcomeView::Initialized,
            Outcome::Started(id) => OutcomeView::Started(id),
            Outcome::Closed => OutcomeView::Closed,
            Outcome::Listed(rows) => OutcomeView::Listed(row_views(rows@)),
        }
    }
}

/// Whether `reply` is a reply that an engine gives to `statement`: one of
/// the statement's kind, or a failure.
pub open spec fn answers(statement: StatementView, reply: ReplyView) -> bool {
    match statement {
        StatementView::CreateRelations => reply == ReplyView::Changed(0) || reply is Failed,
        StatementView::InsertCommand { .. }
        | StatementView::InsertPlace { .. }
        | StatementView::CloseExecution { .. } => reply is Changed || reply is Failed,
        StatementView::SelectCommand { .. } | StatementView::SelectPlace { .. } => reply is Found
            || reply is Failed,
        StatementView::InsertExecution { .. } => reply is Inserted || reply is Failed,
        StatementView::SelectHistory => reply is Entries || reply is Failed,
    }
}

/// The result of an invocation as a mathematical value.
pub open spec fn result_view(result: Result<Outcome, StoreError>) -> Result<
    OutcomeView,
    StoreError,
> {
    match result {
        Ok(outcome) => Ok(outcome@),
        Err(error) => Err(error),
    }
}

/// What a session does next.
#[derive(Debug)]
pub enum Step {
    /// Hand this statement to the engine and come back with its reply.
    Ask(Statement),
    /// The invocation has succeeded.
    Done(Outcome),
    /// The invocation has failed.
    Fail(StoreError),
}

/// A step as a mathematical value.
pub enum StepView {
    Ask(StatementView),
    Done(OutcomeView),
    Fail(StoreError),
}

impl View for Step {
    type V = StepView;

    open spec fn view(&self) -> StepView {
        match *self {
            Step::Ask(statement) => StepView::Ask(statement@),
            Step::Done(outcome) => StepView::Done(outcome@),
            Step::Fail(error) => StepView::Fail(error),
        }
    }
}

/// Where an invocation stands: the statement whose reply it waits for, and
/// what it still needs for the statements after that.
#[derive(Debug)]
pub enum Session {
    /// Waits for the relations to be created.
    Creating,
    /// Waits for the command to be inserted.
    InsertingCommand { text: String, host: String, directory: String, start_time: i64 },
    /// Waits for the identifier of the command.
    SelectingCommand { host: String, directory: String, start_time: i64 },
    /// Waits for the place to be inserted.
    InsertingPlace { command_id: i64, host: String, directory: String, start_time: i64 },
    /// Waits for the identifier of the place.
    SelectingPlace { command_id: i64, start_time: i64 },
    /// Waits for the identifier of the new execution.
    InsertingExecution,
    /// Waits for the execution to be closed.
    Closing,
    /// Waits for the rows of the join.
    Listing,
    /// Has nothing left to ask.
    Finished,
}

/// A session as a mathematical value.
pub enum SessionView {
    Creating,
    InsertingCommand { text: Seq<char>, host: Seq<char>, directory: Seq<char>, start_time: i64 },
    SelectingCommand { host: Seq<char>, directory: Seq<char>, start_time: i64 },
    InsertingPlace { command_id: i64, host: Seq<char>, directory: Seq<char>, start_time: i64 },
    SelectingPlace { command_id: i64, start_time: i64 },
    InsertingExecution,
    Closing,
    Listing,
    Finished,
}

impl View for Session {
    type V = SessionView;

    open spec fn view(&self) -> SessionView {
        match *self {
            Session::Creating => SessionView::Creating,
            Session::InsertingCommand {
                text,
                host,
                directory,
                start_time,
            } => SessionView::InsertingCommand {
                text: text@,
                host: host@,
                directory: directory@,
                start_time,
            },
            Session::SelectingCommand { host, directory, start_time } => SessionView::SelectingCommand {
                host: host@,
                directory: directory@,
                start_time,
            },
            Session::InsertingPlace {
                command_id,
                host,
                directory,
                start_time,
            } => SessionView::InsertingPlace {
                command_id,
                host: host@,
                directory: directory@,
                start_time,
            },
            Session::SelectingPlace { command_id, start_time } => SessionView::SelectingPlace {
                command_id,
                start_time,
            },
            Session::InsertingExecution => SessionView::InsertingExecution,
            Session::Closing => SessionView::Closing,
            Session::Listing => SessionView::Listing,
            Session::Finished => SessionView::Finished,
        }
    }
}

impl InvocationView {
    /// The session that serves this invocation at the time `now`, and the
    /// first statement it asks. The words of a command are joined into one
    /// text; `now` is the start time of a run and the end time of a close.
    pub open spec fn open(self, now: i64) -> (SessionView, StatementView) {
        match self {
            InvocationView::Init => (SessionView::Creating, StatementView::CreateRelations),
            InvocationView::Start { host, directory, words } => (
                SessionView::InsertingCommand {
                    text: joined(words),
                    host,
                    directory,
                    start_time: now,
                },
                StatementView::InsertCommand { text: joined(words) },
            ),
            InvocationView::End { id, exit_code } => (
                SessionView::Closing,
                StatementView::CloseExecution { id, exit_code, end_time: now },
            ),
            InvocationView::List => (SessionView::Listing, StatementView::SelectHistory),
        }
    }

}

impl InvocationView {
    /// Whether `result` is one of the results that this invocation can have,
    /// whatever the engine replies: the outcome is of the invocation's kind,
    /// creating the relations fails with `Initialization` only, `NotFound`
    /// comes from closing only, and everything else fails with `Storage`.
    pub open spec fn admits(self, result: Result<OutcomeView, StoreError>) -> bool {
        match self {
            InvocationView::Init => result == Ok::<OutcomeView, StoreError>(
                OutcomeView::Initialized,
            ) || result == Err::<OutcomeView, StoreError>(StoreError::Initialization),
            InvocationView::Start { .. } => result matches Ok(OutcomeView::Started(_)) || result
                == Err::<OutcomeView, StoreError>(StoreError::Storage),
            InvocationView::End { .. } => result == Ok::<OutcomeView, StoreError>(
                OutcomeView::Closed,
            ) || result == Err::<OutcomeView, StoreError>(StoreError::NotFound) || result == Err::<
                OutcomeView,
                StoreError,
            >(StoreError::Storage),
            InvocationView::List => result matches Ok(OutcomeView::Listed(_)) || result == Err::<
                OutcomeView,
                StoreError,
            >(StoreError::Storage),
        }
    }
}

impl SessionView {
    /// Whether the session is at a point that `invocation` passes. A session
    /// that has ended serves no invocation.
    pub open spec fn serves(self, invocation: InvocationView) -> bool {
        match self {
            SessionView::Creating => invocation is Init,
            SessionView::InsertingCommand { .. }
            | SessionView::SelectingCommand { .. }
            | SessionView::InsertingPlace { .. }
            | SessionView::SelectingPlace { .. }
            | SessionView::InsertingExecution => invocation is Start,
            SessionView::Closing => invocation is End,
            SessionView::Listing => invocation is List,
            SessionView::Finished => false,
        }
    }

    /// The largest number of statements that the session may still ask,
    /// counting the one whose reply it waits for.
    pub open spec fn remaining(self) -> nat {
        match self {
            SessionView::Creating => 1,
            SessionView::InsertingCommand { .. } => 5,
            SessionView::SelectingCommand { .. } => 4,
            SessionView::InsertingPlace { .. } => 3,
            SessionView::SelectingPlace { .. } => 2,
            SessionView::InsertingExecution => 1,
            SessionView::Closing => 1,
            SessionView::Listing => 1,
            SessionView::Finished => 0,
        }
    }

    /// Whether a session that has asked `statement` ends with `result` when
    /// it gets these replies, the first to `statement` and each of the others
    /// to the statement that the session asked on the reply before it: every
    /// reply answers its statement, and the session ends on the last.
    pub open spec fn ends_with(
        self,
        statement: StatementView,
        replies: Seq<ReplyView>,
        result: Result<OutcomeView, StoreError>,
    ) -> bool
        decreases replies.len(),
    {
        &&& replies.len() > 0
        &&& answers(statement, replies.first())
        &&& match self.advance(replies.first()).1 {
            StepView::Ask(asked) => self.advance(replies.first()).0.ends_with(
                asked,
                replies.drop_first(),
                result,
            ),
            StepView::Done(outcome) => replies.len() == 1 && result == Ok::<
                OutcomeView,
                StoreError,
            >(outcome),
            StepView::Fail(error) => replies.len() == 1 && result == Err::<
                OutcomeView,
                StoreError,
            >(error),
        }
    }

    /// The session ended by this error.
    pub open spec fn failed(error: StoreError) -> (SessionView, StepView) {
        (SessionView::Finished, StepView::Fail(error))
    }

    /// The session ended with this outcome.
    pub open spec fn done(outcome: OutcomeView) -> (SessionView, StepView) {
        (SessionView::Finished, StepView::Done(outcome))
    }

    /// What the session does with the reply to the statement it asked.
    ///
    /// An insert into a dictionary is followed by reading the identifier
    /// back, whether or not the insert created a row; a lookup that finds
    /// nothing after its insert is a failure of the storage. Closing an
    /// execution that changed no row is `NotFound`. A reply that fails, or
    /// that does not answer the statement, ends the session with
    /// `Initialization` while the relations are created and with `Storage`
    /// anywhere else.
    pub open spec fn advance(self, reply: ReplyView) -> (SessionView, StepView) {
        match self {
            SessionView::Creating => match reply {
                ReplyView::Changed(_) => Self::done(OutcomeView::Initialized),
                _ => Self::failed(StoreError::Initialization),
            },
            SessionView::InsertingCommand { text, host, directory, start_time } => match reply {
                ReplyView::Changed(_) => (
                    SessionView::SelectingCommand { host, directory, start_time },
                    StepView::Ask(StatementView::SelectCommand { text }),
                ),
                _ => Self::failed(StoreError::Storage),
            },
            SessionView::SelectingCommand { host, directory, start_time } => match reply {
                ReplyView::Found(Some(command_id)) => (
                    SessionView::InsertingPlace { command_id, host, directory, start_time },
                    StepView::Ask(StatementView::InsertPlace { host, directory }),
                ),
                _ => Self::failed(StoreError::Storage),
            },
            SessionView::InsertingPlace { command_id, host, directory, start_time } => match reply {
                ReplyView::Changed(_) => (
                    SessionView::SelectingPlace { command_id, start_time },
                    StepView::Ask(StatementView::SelectPlace { host, directory }),
                ),
                _ => Self::failed(StoreError::Storage),
            },
            SessionView::SelectingPlace { command_id, start_time } => match reply {
                ReplyView::Found(Some(place_id)) => (
                    SessionView::InsertingExecution,
                    StepView::Ask(
                        StatementView::InsertExecution { command_id, place_id, start_time },
                    ),
                ),
                _ => Self::failed(StoreError::Storage),
            },
            SessionView::InsertingExecution => match reply {
                ReplyView::Inserted(id) => Self::done(OutcomeView::Started(id)),
                _ => Self::failed(StoreError::Storage),
            },
            SessionView::Closing => match reply {
                ReplyView::Changed(rows) => if rows == 0 {
                    Self::failed(StoreError::NotFound)
                } else {
                    Self::done(OutcomeView::Closed)
                },
                _ => Self::failed(StoreError::Storage),
            },
            SessionView::Listing => match reply {
                ReplyView::Entries(entries) => Self::done(OutcomeView::Listed(shown_rows(entries))),
                _ => Self::failed(StoreError::Storage),
            },
            SessionView::Finished => Self::failed(StoreError::Storage),
        }
    }
}

impl Session {
    /// Opens the session that serves `invocation` at the time `now`, and
    /// gives the first statement for the engine.
    pub fn open(invocation: Invocation, now: i64) -> (opened: (Session, Statement))
        ensures
            (opened.0@, opened.1@) == invocation@.open(now),
    {
        match invocation {
            Invocation::Init => (Session::Creating, Statement::CreateRelations),
            Invocation::Start { host, directory, words } => {
                let text: String = join_words(&words);
                let asked: String = text.clone();
                (
                    Session::InsertingCommand { text, host, directory, start_time: now },
                    Statement::InsertCommand { text: asked },
                )
            },
            Invocation::End { id, exit_code } => (
                Session::Closing,
                Statement::CloseExecution { id, exit_code, end_time: now },
            ),
            Invocation::List => (Session::Listing, Statement::SelectHistory),
        }
    }

    /// Takes the engine's reply to the statement that was asked last, and
    /// gives the next step along with the session that waits for its reply.
    pub fn advance(self, reply: Reply) -> (next: (Session, Step))
        ensures
            (next.0@, next.1@) == self@.advance(reply@),
    {
        match self {
            Session::Creating => match reply {
                Reply::Changed(_) => (Session::Finished, Step::Done(Outcome::Initialized)),
                _ => (Session::Finished, Step::Fail(StoreError::Initialization)),
            },
            Session::InsertingCommand { text, host, directory, start_time } => match reply {
                Reply::Changed(_) => (
                    Session::SelectingCommand { host, directory, start_time },
                    Step::Ask(Statement::SelectCommand { text }),
                ),
                _ => (Session::Finished, Step::Fail(StoreError::Storage)),
            },
            Session::SelectingCommand { host, directory, start_time } => match reply {
                Reply::Found(Some(command_id)) => {
                    let asked = Statement::InsertPlace {
                        host: host.clone(),
                        directory: directory.clone(),
                    };
                    (
                        Session::InsertingPlace { command_id, host, directory, start_time },
                        Step::Ask(asked),
                    )
                },
                _ => (Session::Finished, Step::Fail(StoreError::Storage)),
            },
            Session::InsertingPlace { command_id, host, directory, start_time } => match reply {
                Reply::Changed(_) => (
                    Session::SelectingPlace { command_id, start_time },
                    Step::Ask(Statement::SelectPlace { host, directory }),
                ),
                _ => (Session::Finished, Step::Fail(StoreError::Storage)),
            },
            Session::SelectingPlace { command_id, start_time } => match reply {
                Reply::Found(Some(place_id)) => (
                    Session::InsertingExecution,
                    Step::Ask(Statement::InsertExecution { command_id, place_id, start_time }),
                ),
                _ => (Session::Finished, Step::Fail(StoreError::Storage)),
            },
            Session::InsertingExecution => match reply {
                Reply::Inserted(id) => (Session::Finished, Step::Done(Outcome::Started(id))),
                _ => (Session::Finished, Step::Fail(StoreError::Storage)),
            },
            Session::Closing => match reply {
                Reply::Changed(rows) => if rows == 0 {
                    (Session::Finished, Step::Fail(StoreError::NotFound))
                } else {
                    (Session::Finished, Step::Done(Outcome::Closed))
                },
                _ => (Session::Finished, Step::Fail(StoreError::Storage)),
            },
            Session::Listing => match reply {
                Reply::Entries(entries) => (
                    Session::Finished,
                    Step::Done(Outcome::Listed(show_all(&entries))),
                ),
                _ => (Session::Finished, Step::Fail(StoreError::Storage)),
            },
            Session::Finished => (Session::Finished, Step::Fail(StoreError::Storage)),
        }
    }
}

/// The session that an invocation opens serves the invocation.
pub proof fn lemma_open_serves(invocation: InvocationView, now: i64)
    ensures
        invocation.open(now).0.serves(invocation),
{
}

/// Whatever the engine replies, a session stays with its invocation until it
/// ends, it ends with a result that the invocation admits, and each step
/// leaves it fewer statements to ask.
pub proof fn lemma_advance_stays_in_bounds(
    session: SessionView,
    invocation: InvocationView,
    reply: ReplyView,
)
    requires
        session.serves(invocation),
    ensures
        match session.advance(reply).1 {
            StepView::Ask(_) => session.advance(reply).0.serves(invocation),
            StepView::Done(outcome) => invocation.admits(Ok(outcome)),
            StepView::Fail(error) => invocation.admits(Err(error)),
        },
        session.advance(reply).0.remaining() < session.remaining(),
{
}

} // verus!
