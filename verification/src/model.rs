//! The history as a mathematical value: three relations, each keyed by the
//! identifiers 1, 2, 3, ... in the order in which its rows were created.
//!
//! Every operation of the store is defined here as a function from the
//! relations before it to the relations after it and the result it hands
//! back. The executable store is verified against these definitions.

use vstd::prelude::*;
use crate::error::StoreError;
use crate::rows::{shown_rows, EntryView, Execution, RowView};
use crate::session::{InvocationView, OutcomeView, ReplyView, SessionView, StatementView, StepView};
use crate::text::joined;

verus! {

/// The largest number of rows that a relation holds: its identifiers are the
/// positive values of `i64`.
pub const MAX_ROWS: u64 = 0x7fff_ffff_ffff_ffff;

/// The identifier under which a dictionary holds `key`, if it holds it: one
/// more than the position of the key.
pub open spec fn key_id<K>(keys: Seq<K>, key: K) -> Option<int> {
    if keys.contains(key) {
        Some(keys.index_of(key) + 1)
    } else {
        None
    }
}

/// The dictionary once `key` has been registered: unchanged where it held the
/// key already, one entry longer where it did not.
pub open spec fn with_key<K>(keys: Seq<K>, key: K) -> Seq<K> {
    if keys.contains(key) {
        keys
    } else {
        keys.push(key)
    }
}

/// Whether a relation of `len` rows can take one more.
pub open spec fn has_room(len: nat) -> bool {
    len < MAX_ROWS
}

/// Whether `key` can be registered: it is there already, or there is room.
pub open spec fn can_register<K>(keys: Seq<K>, key: K) -> bool {
    keys.contains(key) || has_room(keys.len())
}

/// The three relations of the history.
pub struct Relations {
    /// Whether the relations have been created.
    pub ready: bool,
    /// The text of each command; command `i + 1` stands at position `i`.
    pub commands: Seq<Seq<char>>,
    /// Host and directory of each place; place `i + 1` stands at position `i`.
    pub places: Seq<(Seq<char>, Seq<char>)>,
    /// Each execution; execution `i + 1` stands at position `i`.
    pub executions: Seq<Execution>,
}

impl Relations {
    /// A store whose relations have not been created yet.
    pub open spec fn blank() -> Relations {
        Relations {
            ready: false,
            commands: Seq::empty(),
            places: Seq::empty(),
            executions: Seq::empty(),
        }
    }

    /// What holds of every store: no command text and no place occurs twice,
    /// every identifier is an `i64`, an execution has an exit code exactly if
    /// it has a duration, and relations that were never created have no rows.
    pub open spec fn wf(self) -> bool {
        &&& self.commands.no_duplicates()
        &&& self.places.no_duplicates()
        &&& self.commands.len() <= MAX_ROWS
        &&& self.places.len() <= MAX_ROWS
        &&& self.executions.len() <= MAX_ROWS
        &&& forall|i: int|
            0 <= i < self.executions.len() ==> ((#[trigger] self.executions[i]).exit_code is Some
                <==> self.executions[i].duration is Some)
        &&& !self.ready ==> self.commands.len() == 0 && self.places.len() == 0
            && self.executions.len() == 0
    }

    /// The store once its relations exist: the rows stay as they are.
    pub open spec fn initialize(self) -> Relations {
        Relations { ready: true, ..self }
    }

    /// The identifier of the command with this text, if there is one.
    pub open spec fn command_id(self, text: Seq<char>) -> Option<int> {
        key_id(self.commands, text)
    }

    /// The identifier of the place with this host and directory, if there is one.
    pub open spec fn place_id(self, host: Seq<char>, directory: Seq<char>) -> Option<int> {
        key_id(self.places, (host, directory))
    }

    /// Registering a command text: a row is created unless the text is there
    /// already, and the result says how many rows were created. It fails,
    /// and changes nothing, where the relations do not exist or a new row
    /// would find no room.
    pub open spec fn insert_command(self, text: Seq<char>) -> (Relations, Result<u64, StoreError>) {
        if self.ready && can_register(self.commands, text) {
            (
                Relations { commands: with_key(self.commands, text), ..self },
                Ok(
                    if self.commands.contains(text) {
                        0u64
                    } else {
                        1u64
                    },
                ),
            )
        } else {
            (self, Err(StoreError::Storage))
        }
    }

    /// Looking up a command text. It fails where the relations do not exist.
    pub open spec fn select_command(self, text: Seq<char>) -> Result<Option<i64>, StoreError> {
        if self.ready {
            Ok(
                match self.command_id(text) {
                    Some(id) => Some(id as i64),
                    None => None,
                },
            )
        } else {
            Err(StoreError::Storage)
        }
    }

    /// Get-or-create of a command: the relations afterwards and the identifier
    /// of the command with this text. It fails, and changes nothing, where the
    /// relations do not exist or a new row would find no room.
    pub open spec fn resolve_command(self, text: Seq<char>) -> (Relations, Result<i64, StoreError>) {
        if self.ready && can_register(self.commands, text) {
            let commands = with_key(self.commands, text);
            (Relations { commands, ..self }, Ok((commands.index_of(text) + 1) as i64))
        } else {
            (self, Err(StoreError::Storage))
        }
    }

    /// Registering a place: as for a command text, with the pair of host and
    /// directory as the key.
    pub open spec fn insert_place(self, host: Seq<char>, directory: Seq<char>) -> (
        Relations,
        Result<u64, StoreError>,
    ) {
        if self.ready && can_register(self.places, (host, directory)) {
            (
                Relations { places: with_key(self.places, (host, directory)), ..self },
                Ok(
                    if self.places.contains((host, directory)) {
                        0u64
                    } else {
                        1u64
                    },
                ),
            )
        } else {
            (self, Err(StoreError::Storage))
        }
    }

    /// Looking up a place. It fails where the relations do not exist.
    pub open spec fn select_place(self, host: Seq<char>, directory: Seq<char>) -> Result<
        Option<i64>,
        StoreError,
    > {
        if self.ready {
            Ok(
                match self.place_id(host, directory) {
                    Some(id) => Some(id as i64),
                    None => None,
                },
            )
        } else {
            Err(StoreError::Storage)
        }
    }

    /// Get-or-create of a place: as for a command, with the pair of host and
    /// directory as the key.
    pub open spec fn resolve_place(self, host: Seq<char>, directory: Seq<char>) -> (
        Relations,
        Result<i64, StoreError>,
    ) {
        if self.ready && can_register(self.places, (host, directory)) {
            let places = with_key(self.places, (host, directory));
            (Relations { places, ..self }, Ok((places.index_of((host, directory)) + 1) as i64))
        } else {
            (self, Err(StoreError::Storage))
        }
    }

    /// Opening of an execution: a new row at the end, whatever rows there are
    /// already, and its identifier. It fails, and changes nothing, where the
    /// relations do not exist or there is no room.
    pub open spec fn begin(self, command_id: i64, place_id: i64, start_time: i64) -> (
        Relations,
        Result<i64, StoreError>,
    ) {
        if self.ready && has_room(self.executions.len()) {
            (
                Relations {
                    executions: self.executions.push(
                        Execution::opened(command_id, place_id, start_time),
                    ),
                    ..self
                },
                Ok((self.executions.len() + 1) as i64),
            )
        } else {
            (self, Err(StoreError::Storage))
        }
    }

    /// Whether an execution has this identifier.
    pub open spec fn has_execution(self, id: int) -> bool {
        1 <= id <= self.executions.len()
    }

    /// The execution with this identifier.
    pub open spec fn execution(self, id: int) -> Execution
        recommends
            self.has_execution(id),
    {
        self.executions[id - 1]
    }

    /// The statement that closes an execution: where one has this identifier,
    /// its exit code and its duration are set, and the result is the number
    /// of rows that changed, one or none. It fails, and changes nothing,
    /// where the relations do not exist or the duration is no `i64`.
    pub open spec fn close_execution(self, id: i64, exit_code: i64, end_time: i64) -> (
        Relations,
        Result<u64, StoreError>,
    ) {
        if !self.ready {
            (self, Err(StoreError::Storage))
        } else if !self.has_execution(id as int) {
            (self, Ok(0u64))
        } else if !self.execution(id as int).can_close_at(end_time) {
            (self, Err(StoreError::Storage))
        } else {
            (
                Relations {
                    executions: self.executions.update(
                        id - 1,
                        self.execution(id as int).closed_at(exit_code, end_time),
                    ),
                    ..self
                },
                Ok(1u64),
            )
        }
    }

    /// Closing of an execution: its exit code and its duration, the time from
    /// its recorded start to `end_time`, are set and nothing else changes.
    /// Without an execution of that identifier nothing changes and the result
    /// is `NotFound`. It fails, and changes nothing, where the relations do
    /// not exist or the duration is no `i64`.
    pub open spec fn end(self, id: i64, exit_code: i64, end_time: i64) -> (
        Relations,
        Result<(), StoreError>,
    ) {
        if !self.ready {
            (self, Err(StoreError::Storage))
        } else if !self.has_execution(id as int) {
            (self, Err(StoreError::NotFound))
        } else if !self.execution(id as int).can_close_at(end_time) {
            (self, Err(StoreError::Storage))
        } else {
            (
                Relations {
                    executions: self.executions.update(
                        id - 1,
                        self.execution(id as int).closed_at(exit_code, end_time),
                    ),
                    ..self
                },
                Ok(()),
            )
        }
    }

    /// Whether the execution at position `i` refers to a command and to a
    /// place that exist.
    pub open spec fn is_linked(self, i: int) -> bool {
        &&& 1 <= self.executions[i].command_id <= self.commands.len()
        &&& 1 <= self.executions[i].place_id <= self.places.len()
    }

    /// The execution at position `i`, joined with its command and its place.
    pub open spec fn entry(self, i: int) -> EntryView {
        EntryView {
            execution_id: i + 1,
            exit_code: self.executions[i].exit_code,
            directory: self.places[self.executions[i].place_id - 1].1,
            text: self.commands[self.executions[i].command_id - 1],
        }
    }

    /// The join of the first `n` executions with the commands and the places,
    /// in the order of their identifiers. An execution whose command or place
    /// does not exist has no row in it.
    pub open spec fn joined(self, n: nat) -> Seq<EntryView>
        decreases n,
    {
        if n == 0 {
            Seq::empty()
        } else if self.is_linked(n - 1) {
            self.joined((n - 1) as nat).push(self.entry(n - 1))
        } else {
            self.joined((n - 1) as nat)
        }
    }

    /// The join of all executions with the commands and the places.
    pub open spec fn entries(self) -> Seq<EntryView> {
        self.joined(self.executions.len())
    }

    /// Reading the join. It fails where the relations do not exist.
    pub open spec fn select_history(self) -> Result<Seq<EntryView>, StoreError> {
        if self.ready {
            Ok(self.entries())
        } else {
            Err(StoreError::Storage)
        }
    }

    /// The listing of the history: one row for each entry of the join.
    pub open spec fn list_all(self) -> Result<Seq<RowView>, StoreError> {
        if self.ready {
            Ok(shown_rows(self.entries()))
        } else {
            Err(StoreError::Storage)
        }
    }

    /// The start of a tracked run: the command and the place are resolved, in
    /// this order, and an execution is opened with their identifiers. The
    /// first step that fails ends it.
    pub open spec fn start(
        self,
        host: Seq<char>,
        directory: Seq<char>,
        text: Seq<char>,
        start_time: i64,
    ) -> (Relations, Result<i64, StoreError>) {
        let (with_command, command) = self.resolve_command(text);
        match command {
            Err(e) => (with_command, Err(e)),
            Ok(command_id) => {
                let (with_place, place) = with_command.resolve_place(host, directory);
                match place {
                    Err(e) => (with_place, Err(e)),
                    Ok(place_id) => with_place.begin(command_id, place_id, start_time),
                }
            },
        }
    }
}

/// The reply of an engine to a statement that changes rows.
pub open spec fn changed_reply(changed: Result<u64, StoreError>) -> ReplyView {
    match changed {
        Ok(rows) => ReplyView::Changed(rows),
        Err(_) => ReplyView::Failed,
    }
}

/// The reply of an engine to a lookup.
pub open spec fn found_reply(found: Result<Option<i64>, StoreError>) -> ReplyView {
    match found {
        Ok(id) => ReplyView::Found(id),
        Err(_) => ReplyView::Failed,
    }
}

impl Relations {
    /// What one statement does to the relations, and the reply to it.
    pub open spec fn perform(self, statement: StatementView) -> (Relations, ReplyView) {
        match statement {
            StatementView::CreateRelations => (self.initialize(), ReplyView::Changed(0)),
            StatementView::InsertCommand { text } => (
                self.insert_command(text).0,
                changed_reply(self.insert_command(text).1),
            ),
            StatementView::SelectCommand { text } => (self, found_reply(self.select_command(text))),
            StatementView::InsertPlace { host, directory } => (
                self.insert_place(host, directory).0,
                changed_reply(self.insert_place(host, directory).1),
            ),
            StatementView::SelectPlace { host, directory } => (
                self,
                found_reply(self.select_place(host, directory)),
            ),
            StatementView::InsertExecution { command_id, place_id, start_time } => (
                self.begin(command_id, place_id, start_time).0,
                match self.begin(command_id, place_id, start_time).1 {
                    Ok(id) => ReplyView::Inserted(id),
                    Err(_) => ReplyView::Failed,
                },
            ),
            StatementView::CloseExecution { id, exit_code, end_time } => (
                self.close_execution(id, exit_code, end_time).0,
                changed_reply(self.close_execution(id, exit_code, end_time).1),
            ),
            StatementView::SelectHistory => (
                self,
                match self.select_history() {
                    Ok(entries) => ReplyView::Entries(entries),
                    Err(_) => ReplyView::Failed,
                },
            ),
        }
    }

    /// The relations after each of the statements, in their order.
    pub open spec fn perform_all(self, statements: Seq<StatementView>) -> Relations
        decreases statements.len(),
    {
        if statements.len() == 0 {
            self
        } else {
            self.perform_all(statements.drop_last()).perform(statements.last()).0
        }
    }

    /// What an invocation at the time `now` does to the relations, and what
    /// it hands back.
    pub open spec fn run(self, invocation: InvocationView, now: i64) -> (
        Relations,
        Result<OutcomeView, StoreError>,
    ) {
        match invocation {
            InvocationView::Init => (self.initialize(), Ok(OutcomeView::Initialized)),
            InvocationView::Start { host, directory, words } => (
                self.start(host, directory, joined(words), now).0,
                match self.start(host, directory, joined(words), now).1 {
                    Ok(id) => Ok(OutcomeView::Started(id)),
                    Err(error) => Err(error),
                },
            ),
            InvocationView::End { id, exit_code } => (
                self.end(id, exit_code, now).0,
                match self.end(id, exit_code, now).1 {
                    Ok(_) => Ok(OutcomeView::Closed),
                    Err(error) => Err(error),
                },
            ),
            InvocationView::List => (
                self,
                match self.list_all() {
                    Ok(rows) => Ok(OutcomeView::Listed(rows)),
                    Err(error) => Err(error),
                },
            ),
        }
    }

    /// The replies that these relations give to a session that has asked
    /// `statement`, from the reply to that statement to the one on which the
    /// session ends.
    pub open spec fn replies(self, session: SessionView, statement: StatementView) -> Seq<
        ReplyView,
    >
        decreases session.remaining(),
    {
        let (after, reply) = self.perform(statement);
        let (next, step) = session.advance(reply);
        match step {
            StepView::Ask(asked) => seq![reply] + after.replies(next, asked),
            _ => seq![reply],
        }
    }

    /// What a session brings about that has asked `statement` and is served
    /// by these relations until it ends.
    pub open spec fn drive(self, session: SessionView, statement: StatementView) -> (
        Relations,
        Result<OutcomeView, StoreError>,
    )
        decreases session.remaining(),
    {
        let (after, reply) = self.perform(statement);
        let (next, step) = session.advance(reply);
        match step {
            StepView::Ask(asked) => after.drive(next, asked),
            StepView::Done(outcome) => (after, Ok(outcome)),
            StepView::Fail(error) => (after, Err(error)),
        }
    }
}

/// In a dictionary without duplicates a key has the identifier of the position
/// at which it stands.
pub proof fn lemma_key_id_at<K>(keys: Seq<K>, i: int)
    requires
        keys.no_duplicates(),
        0 <= i < keys.len(),
    ensures
        keys.contains(keys[i]),
        keys.index_of(keys[i]) == i,
        key_id(keys, keys[i]) == Some(i + 1),
{
}

/// Registering a key keeps the dictionary free of duplicates, keeps every
/// identifier that was given out, and leaves the key with an identifier.
pub proof fn lemma_with_key<K>(keys: Seq<K>, key: K)
    requires
        keys.no_duplicates(),
    ensures
        with_key(keys, key).no_duplicates(),
        with_key(keys, key).contains(key),
        1 <= with_key(keys, key).index_of(key) + 1 <= with_key(keys, key).len(),
        with_key(keys, key)[with_key(keys, key).index_of(key)] == key,
        with_key(with_key(keys, key), key) == with_key(keys, key),
        forall|other: K| #[trigger]
            keys.contains(other) ==> key_id(with_key(keys, key), other) == key_id(keys, other),
        !keys.contains(key) ==> with_key(keys, key).index_of(key) == keys.len(),
{
    let after = with_key(keys, key);
    if !keys.contains(key) {
        assert(after[keys.len() as int] == key);
        lemma_key_id_at(after, keys.len() as int);
    }
    assert forall|other: K| #[trigger] keys.contains(other) implies key_id(after, other) == key_id(
        keys,
        other,
    ) by {
        let i = keys.index_of(other);
        assert(after[i] == other);
        lemma_key_id_at(after, i);
    }
}

} // verus!
