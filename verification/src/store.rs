//! The history held in memory: the three relations with the operations that
//! record and list executions.

use vstd::prelude::*;
use crate::error::StoreError;
use crate::laws::lemma_session_serves_invocation;
use crate::model::{has_room, lemma_key_id_at, lemma_with_key, Relations, MAX_ROWS};
use crate::session::{result_view, Invocation, Outcome, Reply, Session, Statement, Step};
use crate::rows::{
    entries_outcome, entry_views, rows_outcome, show_all, Execution, HistoryEntry, HistoryRow, Place,
};

verus! {

/// A store of commands, places and executions.
///
/// Its value is a [`Relations`]; whatever is done with a store, that value
/// stays well-formed.
pub struct Store {
    ready: bool,
    commands: Vec<String>,
    places: Vec<Place>,
    executions: Vec<Execution>,
}

impl View for Store {
    type V = Relations;

    closed spec fn view(&self) -> Relations {
        Relations {
            ready: self.ready,
            commands: Seq::new(self.commands@.len(), |i: int| self.commands@[i]@),
            places: Seq::new(self.places@.len(), |i: int| self.places@[i]@),
            executions: self.executions@,
        }
    }
}

/// The identifier of the row at position `index`.
fn id_at(index: usize) -> (id: i64)
    requires
        index < MAX_ROWS,
    ensures
        id == index + 1,
{
    (index as i64) + 1
}

impl Store {
    #[verifier::type_invariant]
    spec fn well_formed(self) -> bool {
        self@.wf()
    }

    /// A store whose relations have not been created yet.
    pub fn new() -> (store: Store)
        ensures
            store@ == Relations::blank(),
            store@.wf(),
    {
        let store = Store {
            ready: false,
            commands: Vec::new(),
            places: Vec::new(),
            executions: Vec::new(),
        };
        assert(store@.commands =~= Seq::empty());
        assert(store@.places =~= Seq::empty());
        store
    }

    /// Creates the relations where they do not exist yet. The rows of a store
    /// that has them already stay as they are.
    pub fn initialize(&mut self)
        ensures
            final(self)@ == old(self)@.initialize(),
    {
        proof {
            use_type_invariant(&*self);
        }
        self.ready = true;
    }

    /// Whether the relations have been created.
    pub fn is_ready(&self) -> (ready: bool)
        ensures
            ready == self@.ready,
    {
        self.ready
    }

    /// The position of the command with this text.
    fn find_command(&self, text: &String) -> (found: Option<usize>)
        ensures
            match found {
                Some(i) => i < self@.commands.len() && self@.commands[i as int] == text@,
                None => !self@.commands.contains(text@),
            },
    {
        let mut i: usize = 0;
        while i < self.commands.len()
            invariant
                i <= self.commands@.len(),
                forall|j: int| 0 <= j < i ==> self.commands@[j]@ != text@,
            decreases self.commands@.len() - i,
        {
            if self.commands[i] == *text {
                return Some(i);
            }
            i = i + 1;
        }
        None
    }

    /// Appends a command that is not registered yet.
    fn push_command(&mut self, text: String)
        requires
            !old(self)@.commands.contains(text@),
            has_room(old(self)@.commands.len()),
            old(self)@.ready,
        ensures
            final(self)@ == (Relations {
                commands: old(self)@.commands.push(text@),
                ..old(self)@
            }),
    {
        proof {
            use_type_invariant(&*self);
        }
        // The rows leave the store while they change: whatever the store
        // holds at any moment is well-formed.
        let mut commands: Vec<String> = Vec::new();
        core::mem::swap(&mut self.commands, &mut commands);
        commands.push(text);
        proof {
            lemma_with_key(old(self)@.commands, text@);
            assert(Seq::new(commands@.len(), |i: int| commands@[i]@) =~= old(self)@.commands.push(
                text@,
            ));
        }
        core::mem::swap(&mut self.commands, &mut commands);
    }

    /// Looks up the command with this text, creating nothing.
    pub fn command_id(&self, text: &str) -> (found: Result<Option<i64>, StoreError>)
        ensures
            found == self@.select_command(text@),
    {
        proof {
            use_type_invariant(self);
        }
        if !self.ready {
            return Err(StoreError::Storage);
        }
        let key: String = text.to_owned();
        match self.find_command(&key) {
            Some(i) => {
                proof {
                    lemma_key_id_at(self@.commands, i as int);
                }
                Ok(Some(id_at(i)))
            },
            None => Ok(None),
        }
    }

    /// Registers the command with this text unless it is registered already,
    /// and says how many rows that created: one or none.
    pub fn insert_command(&mut self, text: &str) -> (changed: Result<u64, StoreError>)
        ensures
            (final(self)@, changed) == old(self)@.insert_command(text@),
    {
        proof {
            use_type_invariant(&*self);
            lemma_with_key(self@.commands, text@);
        }
        if !self.ready {
            return Err(StoreError::Storage);
        }
        let key: String = text.to_owned();
        match self.find_command(&key) {
            Some(_) => Ok(0),
            None => {
                if self.commands.len() as u64 >= MAX_ROWS {
                    return Err(StoreError::Storage);
                }
                self.push_command(key);
                Ok(1)
            },
        }
    }

    /// Get-or-create of a command: registers the text unless it is registered
    /// already, then reads its identifier back.
    pub fn resolve_command(&mut self, text: &str) -> (id: Result<i64, StoreError>)
        ensures
            (final(self)@, id) == old(self)@.resolve_command(text@),
    {
        proof {
            use_type_invariant(&*self);
            lemma_with_key(self@.commands, text@);
        }
        match self.insert_command(text) {
            Err(e) => Err(e),
            Ok(_) => {
                match self.command_id(text) {
                    Ok(Some(id)) => Ok(id),
                    _ => Err(StoreError::Storage),
                }
            },
        }
    }

    /// The position of the place with this host and directory.
    fn find_place(&self, host: &String, directory: &String) -> (found: Option<usize>)
        ensures
            match found {
                Some(i) => i < self@.places.len() && self@.places[i as int] == (host@, directory@),
                None => !self@.places.contains((host@, directory@)),
            },
    {
        let mut i: usize = 0;
        while i < self.places.len()
            invariant
                i <= self.places@.len(),
                forall|j: int| 0 <= j < i ==> self.places@[j]@ != (host@, directory@),
            decreases self.places@.len() - i,
        {
            if self.places[i].host == *host && self.places[i].directory == *directory {
                return Some(i);
            }
            i = i + 1;
        }
        None
    }

    /// Appends a place that is not registered yet.
    fn push_place(&mut self, place: Place)
        requires
            !old(self)@.places.contains(place@),
            has_room(old(self)@.places.len()),
            old(self)@.ready,
        ensures
            final(self)@ == (Relations { places: old(self)@.places.push(place@), ..old(self)@ }),
    {
        proof {
            use_type_invariant(&*self);
        }
        let mut places: Vec<Place> = Vec::new();
        core::mem::swap(&mut self.places, &mut places);
        places.push(place);
        proof {
            lemma_with_key(old(self)@.places, place@);
            assert(Seq::new(places@.len(), |i: int| places@[i]@) =~= old(self)@.places.push(
                place@,
            ));
        }
        core::mem::swap(&mut self.places, &mut places);
    }

    /// Looks up the place with this host and directory, creating nothing.
    pub fn place_id(&self, host: &str, directory: &str) -> (found: Result<Option<i64>, StoreError>)
        ensures
            found == self@.select_place(host@, directory@),
    {
        proof {
            use_type_invariant(self);
        }
        if !self.ready {
            return Err(StoreError::Storage);
        }
        let host: String = host.to_owned();
        let directory: String = directory.to_owned();
        match self.find_place(&host, &directory) {
            Some(i) => {
                proof {
                    lemma_key_id_at(self@.places, i as int);
                }
                Ok(Some(id_at(i)))
            },
            None => Ok(None),
        }
    }

    /// Registers the place with this host and directory unless it is
    /// registered already, and says how many rows that created: one or none.
    pub fn insert_place(&mut self, host: &str, directory: &str) -> (changed: Result<
        u64,
        StoreError,
    >)
        ensures
            (final(self)@, changed) == old(self)@.insert_place(host@, directory@),
    {
        proof {
            use_type_invariant(&*self);
            lemma_with_key(self@.places, (host@, directory@));
        }
        if !self.ready {
            return Err(StoreError::Storage);
        }
        let host: String = host.to_owned();
        let directory: String = directory.to_owned();
        match self.find_place(&host, &directory) {
            Some(_) => Ok(0),
            None => {
                if self.places.len() as u64 >= MAX_ROWS {
                    return Err(StoreError::Storage);
                }
                self.push_place(Place { host, directory });
                Ok(1)
            },
        }
    }

    /// Get-or-create of a place: registers the pair unless it is registered
    /// already, then reads its identifier back.
    pub fn resolve_place(&mut self, host: &str, directory: &str) -> (id: Result<i64, StoreError>)
        ensures
            (final(self)@, id) == old(self)@.resolve_place(host@, directory@),
    {
        proof {
            use_type_invariant(&*self);
            lemma_with_key(self@.places, (host@, directory@));
        }
        match self.insert_place(host, directory) {
            Err(e) => Err(e),
            Ok(_) => {
                match self.place_id(host, directory) {
                    Ok(Some(id)) => Ok(id),
                    _ => Err(StoreError::Storage),
                }
            },
        }
    }

    /// Opens an execution of the command at the place at `start_time` and
    /// returns its identifier. Every call creates a row of its own.
    pub fn begin(&mut self, command_id: i64, place_id: i64, start_time: i64) -> (id: Result<
        i64,
        StoreError,
    >)
        ensures
            (final(self)@, id) == old(self)@.begin(command_id, place_id, start_time),
    {
        proof {
            use_type_invariant(&*self);
        }
        if !self.ready || self.executions.len() as u64 >= MAX_ROWS {
            return Err(StoreError::Storage);
        }
        let id: i64 = id_at(self.executions.len());
        let row = Execution { command_id, place_id, exit_code: None, start_time, duration: None };
        let mut executions: Vec<Execution> = Vec::new();
        core::mem::swap(&mut self.executions, &mut executions);
        executions.push(row);
        core::mem::swap(&mut self.executions, &mut executions);
        Ok(id)
    }

    /// Starts a tracked run: resolves the command text and the place, then
    /// opens an execution that refers to both.
    pub fn start(&mut self, host: &str, directory: &str, text: &str, start_time: i64) -> (id:
        Result<i64, StoreError>)
        ensures
            (final(self)@, id) == old(self)@.start(host@, directory@, text@, start_time),
    {
        let command_id: i64 = match self.resolve_command(text) {
            Ok(id) => id,
            Err(e) => {
                return Err(e);
            },
        };
        let place_id: i64 = match self.resolve_place(host, directory) {
            Ok(id) => id,
            Err(e) => {
                return Err(e);
            },
        };
        self.begin(command_id, place_id, start_time)
    }

    /// Closes the execution with this identifier, if there is one, and says
    /// how many rows that changed: one or none.
    pub fn close_execution(&mut self, id: i64, exit_code: i64, end_time: i64) -> (changed: Result<
        u64,
        StoreError,
    >)
        ensures
            (final(self)@, changed) == old(self)@.close_execution(id, exit_code, end_time),
    {
        proof {
            use_type_invariant(&*self);
        }
        if !self.ready {
            return Err(StoreError::Storage);
        }
        if id < 1 || id as u64 > self.executions.len() as u64 {
            return Ok(0);
        }
        let index: usize = (id - 1) as usize;
        let row: Execution = self.executions[index];
        match end_time.checked_sub(row.start_time) {
            None => Err(StoreError::Storage),
            Some(duration) => {
                let closed = Execution {
                    command_id: row.command_id,
                    place_id: row.place_id,
                    exit_code: Some(exit_code),
                    start_time: row.start_time,
                    duration: Some(duration),
                };
                let mut executions: Vec<Execution> = Vec::new();
                core::mem::swap(&mut self.executions, &mut executions);
                executions.set(index, closed);
                core::mem::swap(&mut self.executions, &mut executions);
                Ok(1)
            },
        }
    }

    /// Closes the execution with this identifier: sets its exit code, and as
    /// its duration the time from its start to `end_time`. Without such an
    /// execution the result is `NotFound`.
    pub fn end(&mut self, id: i64, exit_code: i64, end_time: i64) -> (done: Result<(), StoreError>)
        ensures
            (final(self)@, done) == old(self)@.end(id, exit_code, end_time),
    {
        match self.close_execution(id, exit_code, end_time) {
            Err(e) => Err(e),
            Ok(0) => Err(StoreError::NotFound),
            Ok(_) => Ok(()),
        }
    }

    /// The join of the executions with their commands and places, in the
    /// order of the executions' identifiers.
    pub fn entries(&self) -> (found: Result<Vec<HistoryEntry>, StoreError>)
        ensures
            entries_outcome(found) == self@.select_history(),
    {
        proof {
            use_type_invariant(self);
        }
        if !self.ready {
            return Err(StoreError::Storage);
        }
        let mut entries: Vec<HistoryEntry> = Vec::new();
        let mut i: usize = 0;
        while i < self.executions.len()
            invariant
                self@.wf(),
                i <= self.executions@.len(),
                entry_views(entries@) == self@.joined(i as nat),
            decreases self.executions@.len() - i,
        {
            let row: Execution = self.executions[i];
            let ghost before = entries@;
            if 1 <= row.command_id && row.command_id as u64 <= self.commands.len() as u64 && 1
                <= row.place_id && row.place_id as u64 <= self.places.len() as u64 {
                let entry = HistoryEntry {
                    execution_id: id_at(i),
                    exit_code: row.exit_code,
                    directory: self.places[(row.place_id - 1) as usize].directory.clone(),
                    text: self.commands[(row.command_id - 1) as usize].clone(),
                };
                assert(entry@ == self@.entry(i as int));
                entries.push(entry);
                assert(entry_views(entries@) =~= entry_views(before).push(entry@));
            }
            i = i + 1;
        }
        Ok(entries)
    }

    /// The listing of the history: every execution whose command and place
    /// exist, with its identifier, its exit code (0 while it is open), the
    /// directory and the command text.
    pub fn list_all(&self) -> (listed: Result<Vec<HistoryRow>, StoreError>)
        ensures
            rows_outcome(listed) == self@.list_all(),
    {
        match self.entries() {
            Ok(entries) => Ok(show_all(&entries)),
            Err(e) => Err(e),
        }
    }

    /// The execution with this identifier, if there is one.
    pub fn execution(&self, id: i64) -> (row: Option<Execution>)
        ensures
            row == (if self@.has_execution(id as int) {
                Some(self@.execution(id as int))
            } else {
                None
            }),
    {
        if id < 1 || id as u64 > self.executions.len() as u64 {
            None
        } else {
            Some(self.executions[(id - 1) as usize])
        }
    }

    /// The number of commands.
    pub fn command_count(&self) -> (count: usize)
        ensures
            count == self@.commands.len(),
    {
        self.commands.len()
    }

    /// The number of places.
    pub fn place_count(&self) -> (count: usize)
        ensures
            count == self@.places.len(),
    {
        self.places.len()
    }

    /// The number of executions.
    pub fn execution_count(&self) -> (count: usize)
        ensures
            count == self@.executions.len(),
    {
        self.executions.len()
    }

    /// Runs one statement on the store, as a storage engine would, and gives
    /// the reply to it.
    pub fn perform(&mut self, statement: &Statement) -> (reply: Reply)
        ensures
            (final(self)@, reply@) == old(self)@.perform(statement@),
    {
        match statement {
            Statement::CreateRelations => {
                self.initialize();
                Reply::Changed(0)
            },
            Statement::InsertCommand { text } => match self.insert_command(text.as_str()) {
                Ok(rows) => Reply::Changed(rows),
                Err(_) => Reply::Failed,
            },
            Statement::SelectCommand { text } => match self.command_id(text.as_str()) {
                Ok(id) => Reply::Found(id),
                Err(_) => Reply::Failed,
            },
            Statement::InsertPlace { host, directory } => match self.insert_place(
                host.as_str(),
                directory.as_str(),
            ) {
                Ok(rows) => Reply::Changed(rows),
                Err(_) => Reply::Failed,
            },
            Statement::SelectPlace { host, directory } => match self.place_id(
                host.as_str(),
                directory.as_str(),
            ) {
                Ok(id) => Reply::Found(id),
                Err(_) => Reply::Failed,
            },
            Statement::InsertExecution { command_id, place_id, start_time } => match self.begin(
                *command_id,
                *place_id,
                *start_time,
            ) {
                Ok(id) => Reply::Inserted(id),
                Err(_) => Reply::Failed,
            },
            Statement::CloseExecution { id, exit_code, end_time } => match self.close_execution(
                *id,
                *exit_code,
                *end_time,
            ) {
                Ok(rows) => Reply::Changed(rows),
                Err(_) => Reply::Failed,
            },
            Statement::SelectHistory => match self.entries() {
                Ok(entries) => Reply::Entries(entries),
                Err(_) => Reply::Failed,
            },
        }
    }

    /// Serves an invocation at the time `now` from its first statement to its
    /// end, and gives what it hands back.
    pub fn run(&mut self, invocation: Invocation, now: i64) -> (result: Result<Outcome, StoreError>)
        ensures
            (final(self)@, result_view(result)) == old(self)@.run(invocation@, now),
    {
        let ghost asked = invocation@;
        proof {
            use_type_invariant(&*self);
            lemma_session_serves_invocation(self@, asked, now);
        }
        let (mut session, mut statement) = Session::open(invocation, now);
        loop
            invariant
                asked == invocation@,
                self@.drive(session@, statement@) == old(self)@.run(asked, now),
            decreases session@.remaining(),
        {
            let reply = self.perform(&statement);
            let (next, step) = session.advance(reply);
            match step {
                Step::Ask(following) => {
                    session = next;
                    statement = following;
                },
                Step::Done(outcome) => {
                    return Ok(outcome);
                },
                Step::Fail(error) => {
                    return Err(error);
                },
            }
        }
    }
}

} // verus!
