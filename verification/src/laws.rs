//! What holds of the history whatever is in it: identifiers are stable,
//! dictionaries never hold a key twice, executions are never merged, and a
//! closed execution carries exactly the time that passed.

use vstd::prelude::*;
use crate::error::StoreError;
use crate::model::{lemma_key_id_at, lemma_with_key, with_key, Relations};
use crate::rows::{EntryView, RowView};
use crate::session::{
    answers, InvocationView, OutcomeView, ReplyView, SessionView, StatementView, StepView,
};
use crate::text::joined;

verus! {

/// Every operation leaves well-formed relations well-formed.
pub proof fn lemma_operations_keep_well_formed(
    m: Relations,
    host: Seq<char>,
    directory: Seq<char>,
    text: Seq<char>,
    command_id: i64,
    place_id: i64,
    id: i64,
    exit_code: i64,
    time: i64,
)
    requires
        m.wf(),
    ensures
        m.initialize().wf(),
        m.insert_command(text).0.wf(),
        m.resolve_command(text).0.wf(),
        m.insert_place(host, directory).0.wf(),
        m.resolve_place(host, directory).0.wf(),
        m.begin(command_id, place_id, time).0.wf(),
        m.close_execution(id, exit_code, time).0.wf(),
        m.end(id, exit_code, time).0.wf(),
        m.start(host, directory, text, time).0.wf(),
{
    lemma_with_key(m.commands, text);
    lemma_with_key(m.places, (host, directory));
    let with_command = m.resolve_command(text).0;
    lemma_with_key(with_command.places, (host, directory));
}

/// A command text that is registered resolves to the identifier it has, and
/// resolving it changes nothing.
pub proof fn lemma_resolve_known_command(m: Relations, text: Seq<char>, id: int)
    requires
        m.wf(),
        m.ready,
        m.command_id(text) == Some(id),
    ensures
        m.resolve_command(text) == (m, Ok::<i64, StoreError>(id as i64)),
        1 <= id <= m.commands.len(),
        m.commands[id - 1] == text,
{
}

/// Resolving a command text twice gives the same result both times, and the
/// second call changes nothing. Where the text was resolved, exactly one
/// command has it.
pub proof fn lemma_resolve_command_twice(m: Relations, text: Seq<char>)
    requires
        m.wf(),
    ensures
        ({
            let (once, first) = m.resolve_command(text);
            let (twice, second) = once.resolve_command(text);
            &&& second == first
            &&& twice == once
            &&& first is Ok ==> once.commands.to_multiset().count(text) == 1
        }),
{
    lemma_with_key(m.commands, text);
    let once = m.resolve_command(text).0;
    if m.resolve_command(text).1 is Ok {
        once.commands.to_multiset_ensures();
        once.commands.lemma_multiset_has_no_duplicates();
    }
}

/// A place that is registered resolves to the identifier it has, and
/// resolving it changes nothing.
pub proof fn lemma_resolve_known_place(
    m: Relations,
    host: Seq<char>,
    directory: Seq<char>,
    id: int,
)
    requires
        m.wf(),
        m.ready,
        m.place_id(host, directory) == Some(id),
    ensures
        m.resolve_place(host, directory) == (m, Ok::<i64, StoreError>(id as i64)),
        1 <= id <= m.places.len(),
        m.places[id - 1] == (host, directory),
{
}

/// Resolving a place twice gives the same result both times, and the second
/// call changes nothing. Where the place was resolved, exactly one place has
/// that host and directory.
pub proof fn lemma_resolve_place_twice(m: Relations, host: Seq<char>, directory: Seq<char>)
    requires
        m.wf(),
    ensures
        ({
            let (once, first) = m.resolve_place(host, directory);
            let (twice, second) = once.resolve_place(host, directory);
            &&& second == first
            &&& twice == once
            &&& first is Ok ==> once.places.to_multiset().count((host, directory)) == 1
        }),
{
    lemma_with_key(m.places, (host, directory));
    let once = m.resolve_place(host, directory).0;
    if m.resolve_place(host, directory).1 is Ok {
        once.places.to_multiset_ensures();
        once.places.lemma_multiset_has_no_duplicates();
    }
}

/// Two places that differ in the host or in the directory never resolve to
/// the same identifier, and resolving the second leaves the first with the
/// identifier it was given.
pub proof fn lemma_distinct_places_distinct_ids(
    m: Relations,
    host_a: Seq<char>,
    directory_a: Seq<char>,
    host_b: Seq<char>,
    directory_b: Seq<char>,
)
    requires
        m.wf(),
        host_a != host_b || directory_a != directory_b,
    ensures
        ({
            let (with_a, a) = m.resolve_place(host_a, directory_a);
            let (with_both, b) = with_a.resolve_place(host_b, directory_b);
            &&& a is Ok && b is Ok ==> a != b
            &&& a is Ok ==> with_both.resolve_place(host_a, directory_a) == (with_both, a)
        }),
{
    let key_a = (host_a, directory_a);
    let key_b = (host_b, directory_b);
    lemma_with_key(m.places, key_a);
    let (with_a, a) = m.resolve_place(host_a, directory_a);
    lemma_with_key(with_a.places, key_b);
    let (with_both, b) = with_a.resolve_place(host_b, directory_b);
    lemma_with_key(with_both.places, key_a);
    if a is Ok {
        let i = with_a.places.index_of(key_a);
        assert(with_both.places[i] == key_a);
        lemma_key_id_at(with_both.places, i);
        assert(with_key(with_both.places, key_a) == with_both.places);
        if b is Ok {
            let j = with_both.places.index_of(key_b);
            assert(with_both.places[j] == key_b);
        }
    }
}

/// Two commands with different texts never resolve to the same identifier.
pub proof fn lemma_distinct_commands_distinct_ids(
    m: Relations,
    text_a: Seq<char>,
    text_b: Seq<char>,
)
    requires
        m.wf(),
        text_a != text_b,
    ensures
        ({
            let (with_a, a) = m.resolve_command(text_a);
            let (with_both, b) = with_a.resolve_command(text_b);
            &&& a is Ok && b is Ok ==> a != b
            &&& a is Ok ==> with_both.resolve_command(text_a) == (with_both, a)
        }),
{
    lemma_with_key(m.commands, text_a);
    let (with_a, a) = m.resolve_command(text_a);
    lemma_with_key(with_a.commands, text_b);
    let (with_both, b) = with_a.resolve_command(text_b);
    lemma_with_key(with_both.commands, text_a);
    if a is Ok {
        let i = with_a.commands.index_of(text_a);
        assert(with_both.commands[i] == text_a);
        lemma_key_id_at(with_both.commands, i);
        assert(with_key(with_both.commands, text_a) == with_both.commands);
        if b is Ok {
            let j = with_both.commands.index_of(text_b);
            assert(with_both.commands[j] == text_b);
        }
    }
}

/// Opening an execution twice with the same command, place and time creates
/// two rows with two identifiers, both open, and the first row stays as it
/// was.
pub proof fn lemma_begin_twice(m: Relations, command_id: i64, place_id: i64, start_time: i64)
    requires
        m.wf(),
    ensures
        ({
            let (once, first) = m.begin(command_id, place_id, start_time);
            let (twice, second) = once.begin(command_id, place_id, start_time);
            first is Ok && second is Ok ==> {
                &&& first != second
                &&& twice.executions.len() == m.executions.len() + 2
                &&& !m.has_execution(first->Ok_0 as int)
                &&& !once.has_execution(second->Ok_0 as int)
                &&& twice.execution(first->Ok_0 as int) == once.execution(first->Ok_0 as int)
                &&& twice.execution(first->Ok_0 as int).is_open()
                &&& twice.execution(second->Ok_0 as int).is_open()
            }
        }),
{
}

/// Starting the same command in the same place twice gives two executions
/// with two identifiers, both of the one command and the one place.
pub proof fn lemma_start_twice(
    m: Relations,
    host: Seq<char>,
    directory: Seq<char>,
    text: Seq<char>,
    first_time: i64,
    second_time: i64,
)
    requires
        m.wf(),
    ensures
        ({
            let (once, first) = m.start(host, directory, text, first_time);
            let (twice, second) = once.start(host, directory, text, second_time);
            first is Ok && second is Ok ==> {
                &&& first != second
                &&& twice.executions.len() == m.executions.len() + 2
                &&& twice.commands == once.commands
                &&& twice.places == once.places
                &&& twice.execution(first->Ok_0 as int).command_id == twice.execution(
                    second->Ok_0 as int,
                ).command_id
                &&& twice.execution(first->Ok_0 as int).place_id == twice.execution(
                    second->Ok_0 as int,
                ).place_id
            }
        }),
{
    let (once, first) = m.start(host, directory, text, first_time);
    lemma_operations_keep_well_formed(m, host, directory, text, 0, 0, 0, 0, first_time);
    lemma_with_key(m.commands, text);
    lemma_with_key(m.resolve_command(text).0.places, (host, directory));
    lemma_with_key(once.commands, text);
    lemma_with_key(once.places, (host, directory));
}

/// A start that fails opens no execution.
pub proof fn lemma_failed_start_opens_nothing(
    m: Relations,
    host: Seq<char>,
    directory: Seq<char>,
    text: Seq<char>,
    start_time: i64,
)
    requires
        m.wf(),
    ensures
        m.start(host, directory, text, start_time).1 is Err ==> m.start(
            host,
            directory,
            text,
            start_time,
        ).0.executions == m.executions,
{
}

/// An execution that was started is the last entry of the join, with the
/// directory and the command text it was started with and without an exit
/// code.
pub proof fn lemma_started_execution_is_listed(
    m: Relations,
    host: Seq<char>,
    directory: Seq<char>,
    text: Seq<char>,
    start_time: i64,
)
    requires
        m.wf(),
    ensures
        ({
            let (after, id) = m.start(host, directory, text, start_time);
            id is Ok ==> {
                &&& after.has_execution(id->Ok_0 as int)
                &&& after.is_linked(id->Ok_0 - 1)
                &&& after.entries().len() > 0
                &&& after.entries().last() == (EntryView {
                    execution_id: id->Ok_0 as int,
                    exit_code: None,
                    directory,
                    text,
                })
            }
        }),
{
    lemma_with_key(m.commands, text);
    lemma_with_key(m.resolve_command(text).0.places, (host, directory));
}

/// The round trip of one execution: started, closed with `exit_code` and
/// then listed, it is the last row of the listing, with its identifier, that
/// exit code, the directory and the command text. Where it is the only
/// execution, it is the only row.
pub proof fn lemma_round_trip(
    m: Relations,
    host: Seq<char>,
    directory: Seq<char>,
    text: Seq<char>,
    start_time: i64,
    exit_code: i64,
    end_time: i64,
)
    requires
        m.wf(),
    ensures
        ({
            let (started, id) = m.start(host, directory, text, start_time);
            id is Ok ==> {
                let (closed, done) = started.end(id->Ok_0, exit_code, end_time);
                done is Ok ==> {
                    &&& closed.list_all() is Ok
                    &&& closed.list_all()->Ok_0.len() > 0
                    &&& closed.list_all()->Ok_0.last() == (RowView {
                        execution_id: id->Ok_0 as int,
                        exit_code,
                        directory,
                        text,
                    })
                    &&& m.executions.len() == 0 ==> closed.list_all()->Ok_0.len() == 1
                }
            }
        }),
{
    lemma_with_key(m.commands, text);
    lemma_with_key(m.resolve_command(text).0.places, (host, directory));
    lemma_started_execution_is_listed(m, host, directory, text, start_time);
    let (started, id) = m.start(host, directory, text, start_time);
    if id is Ok {
        let (closed, done) = started.end(id->Ok_0, exit_code, end_time);
        if done is Ok {
            assert(closed.is_linked(id->Ok_0 - 1));
            assert(closed.entries().last() == closed.entry(id->Ok_0 - 1));
            if m.executions.len() == 0 {
                reveal_with_fuel(Relations::joined, 2);
                assert(closed.entries().len() == 1);
            }
        }
    }
}

/// An execution that was opened at `start_time` and is closed at `end_time`
/// with `exit_code` carries that exit code and the duration
/// `end_time - start_time`, and its start time is what it was. Where that
/// duration is no `i64`, closing fails and changes nothing.
pub proof fn lemma_duration(
    m: Relations,
    command_id: i64,
    place_id: i64,
    start_time: i64,
    exit_code: i64,
    end_time: i64,
)
    requires
        m.wf(),
    ensures
        ({
            let (opened, id) = m.begin(command_id, place_id, start_time);
            id is Ok ==> {
                let (closed, done) = opened.end(id->Ok_0, exit_code, end_time);
                if i64::MIN <= end_time - start_time <= i64::MAX {
                    &&& done == Ok::<(), StoreError>(())
                    &&& closed.execution(id->Ok_0 as int).duration == Some(
                        (end_time - start_time) as i64,
                    )
                    &&& closed.execution(id->Ok_0 as int).exit_code == Some(exit_code)
                    &&& closed.execution(id->Ok_0 as int).start_time == start_time
                    &&& closed.execution(id->Ok_0 as int).command_id == command_id
                    &&& closed.execution(id->Ok_0 as int).place_id == place_id
                } else {
                    &&& done == Err::<(), StoreError>(StoreError::Storage)
                    &&& closed == opened
                }
            }
        }),
{
}

/// Closing touches one execution only: every other one stays as it was, and
/// no command and no place changes.
pub proof fn lemma_end_touches_one(
    m: Relations,
    id: i64,
    exit_code: i64,
    end_time: i64,
    other: int,
)
    requires
        m.wf(),
        m.has_execution(other),
        other != id,
    ensures
        m.end(id, exit_code, end_time).0.has_execution(other),
        m.end(id, exit_code, end_time).0.execution(other) == m.execution(other),
        m.end(id, exit_code, end_time).0.commands == m.commands,
        m.end(id, exit_code, end_time).0.places == m.places,
        m.end(id, exit_code, end_time).0.executions.len() == m.executions.len(),
{
}

/// The identifiers that opening has given out are exactly those of the
/// executions there are. Closing with any other identifier is reported as
/// `NotFound` and changes nothing.
pub proof fn lemma_end_unknown_is_not_found(m: Relations, id: i64, exit_code: i64, end_time: i64)
    requires
        m.wf(),
        m.ready,
        !m.has_execution(id as int),
    ensures
        m.end(id, exit_code, end_time) == (m, Err::<(), StoreError>(StoreError::NotFound)),
{
}

/// A session that the relations serve statement by statement, from its first
/// statement to its end, does to them what its invocation is to do and hands
/// back what the invocation is to hand back.
pub proof fn lemma_session_serves_invocation(m: Relations, invocation: InvocationView, now: i64)
    requires
        m.wf(),
    ensures
        m.drive(invocation.open(now).0, invocation.open(now).1) == m.run(invocation, now),
{
    reveal_with_fuel(Relations::drive, 6);
    match invocation {
        InvocationView::Start { host, directory, words } => {
            let text = joined(words);
            lemma_with_key(m.commands, text);
            let with_command = m.insert_command(text).0;
            lemma_with_key(with_command.places, (host, directory));
        },
        _ => {},
    }
}

/// The store answers every statement with a reply of the statement's kind,
/// or with a failure.
pub proof fn lemma_perform_answers(m: Relations, statement: StatementView)
    ensures
        answers(statement, m.perform(statement).1),
{
}

/// A session that gets the replies of the store ends with the result that
/// the store brings about.
pub proof fn lemma_replies_end_with_drive(
    m: Relations,
    session: SessionView,
    statement: StatementView,
)
    ensures
        session.ends_with(
            statement,
            m.replies(session, statement),
            m.drive(session, statement).1,
        ),
    decreases session.remaining(),
{
    let (after, reply) = m.perform(statement);
    let (next, step) = session.advance(reply);
    let replies = m.replies(session, statement);
    assert(replies.first() == reply);
    match step {
        StepView::Ask(asked) => {
            lemma_replies_end_with_drive(after, next, asked);
            assert(replies.drop_first() =~= after.replies(next, asked));
        },
        _ => {},
    }
}

/// The replies decide the result: a session cannot end in two ways on the
/// same replies.
pub proof fn lemma_replies_decide(
    session: SessionView,
    statement: StatementView,
    replies: Seq<ReplyView>,
    a: Result<OutcomeView, StoreError>,
    b: Result<OutcomeView, StoreError>,
)
    requires
        session.ends_with(statement, replies, a),
        session.ends_with(statement, replies, b),
    ensures
        a == b,
    decreases replies.len(),
{
    match session.advance(replies.first()).1 {
        StepView::Ask(asked) => {
            lemma_replies_decide(
                session.advance(replies.first()).0,
                asked,
                replies.drop_first(),
                a,
                b,
            );
        },
        _ => {},
    }
}

/// An engine that replies to an invocation as the store with relations `m`
/// does brings the invocation to the result that it has on `m`: whatever the
/// laws of this module say of that result holds of the engine's.
pub proof fn lemma_replies_of_the_store_give_its_result(
    m: Relations,
    invocation: InvocationView,
    now: i64,
    replies: Seq<ReplyView>,
    result: Result<OutcomeView, StoreError>,
)
    requires
        m.wf(),
        replies == m.replies(invocation.open(now).0, invocation.open(now).1),
        invocation.open(now).0.ends_with(invocation.open(now).1, replies, result),
    ensures
        result == m.run(invocation, now).1,
{
    let (session, statement) = invocation.open(now);
    lemma_replies_end_with_drive(m, session, statement);
    lemma_session_serves_invocation(m, invocation, now);
    lemma_replies_decide(session, statement, replies, result, m.drive(session, statement).1);
}

/// No statement takes a command, a place or an execution away, changes the
/// identifier of a command or a place, or changes what an execution refers to
/// and when it started.
pub proof fn lemma_statement_keeps_rows(m: Relations, statement: StatementView)
    requires
        m.wf(),
    ensures
        m.perform(statement).0.wf(),
        m.ready ==> m.perform(statement).0.ready,
        forall|text: Seq<char>| #[trigger]
            m.commands.contains(text) ==> m.perform(statement).0.command_id(text) == m.command_id(
                text,
            ),
        forall|host: Seq<char>, directory: Seq<char>| #[trigger]
            m.places.contains((host, directory)) ==> m.perform(statement).0.place_id(
                host,
                directory,
            ) == m.place_id(host, directory),
        forall|id: int| #[trigger]
            m.has_execution(id) ==> {
                let after = m.perform(statement).0;
                &&& after.has_execution(id)
                &&& after.execution(id).command_id == m.execution(id).command_id
                &&& after.execution(id).place_id == m.execution(id).place_id
                &&& after.execution(id).start_time == m.execution(id).start_time
            },
{
    match statement {
        StatementView::InsertCommand { text } => {
            lemma_with_key(m.commands, text);
        },
        StatementView::InsertPlace { host, directory } => {
            lemma_with_key(m.places, (host, directory));
        },
        _ => {},
    }
}

/// What [`lemma_statement_keeps_rows`] says of one statement holds of any
/// number of statements in any order.
pub proof fn lemma_statements_keep_rows(m: Relations, statements: Seq<StatementView>)
    requires
        m.wf(),
    ensures
        m.perform_all(statements).wf(),
        m.ready ==> m.perform_all(statements).ready,
        forall|text: Seq<char>| #[trigger]
            m.commands.contains(text) ==> m.perform_all(statements).command_id(text)
                == m.command_id(text),
        forall|host: Seq<char>, directory: Seq<char>| #[trigger]
            m.places.contains((host, directory)) ==> m.perform_all(statements).place_id(
                host,
                directory,
            ) == m.place_id(host, directory),
        forall|id: int| #[trigger]
            m.has_execution(id) ==> {
                let after = m.perform_all(statements);
                &&& after.has_execution(id)
                &&& after.execution(id).command_id == m.execution(id).command_id
                &&& after.execution(id).place_id == m.execution(id).place_id
                &&& after.execution(id).start_time == m.execution(id).start_time
            },
    decreases statements.len(),
{
    if statements.len() > 0 {
        let before = m.perform_all(statements.drop_last());
        lemma_statements_keep_rows(m, statements.drop_last());
        lemma_statement_keeps_rows(before, statements.last());
        assert forall|text: Seq<char>| #[trigger] m.commands.contains(text) implies m.perform_all(
            statements,
        ).command_id(text) == m.command_id(text) by {
            assert(before.command_id(text) == m.command_id(text));
            assert(before.commands.contains(text));
        }
        assert forall|host: Seq<char>, directory: Seq<char>| #[trigger]
            m.places.contains((host, directory)) implies m.perform_all(statements).place_id(
            host,
            directory,
        ) == m.place_id(host, directory) by {
            assert(before.place_id(host, directory) == m.place_id(host, directory));
            assert(before.places.contains((host, directory)));
        }
        assert forall|id: int| #[trigger] m.has_execution(id) implies {
            let after = m.perform_all(statements);
            &&& after.has_execution(id)
            &&& after.execution(id).command_id == m.execution(id).command_id
            &&& after.execution(id).place_id == m.execution(id).place_id
            &&& after.execution(id).start_time == m.execution(id).start_time
        } by {
            assert(before.has_execution(id));
        }
    }
}

/// Resolution of a command holds against whatever other sessions do: once a
/// session has inserted the text, its lookup finds the same identifier
/// whichever statements ran on the store in between, another insert of the
/// same text among them, and exactly one command has the text.
pub proof fn lemma_command_resolution_survives(
    m: Relations,
    text: Seq<char>,
    others: Seq<StatementView>,
)
    requires
        m.wf(),
    ensures
        ({
            let (inserted, reply) = m.perform(StatementView::InsertCommand { text });
            let later = inserted.perform_all(others);
            reply != ReplyView::Failed ==> {
                &&& later.perform(StatementView::SelectCommand { text }).1 == inserted.perform(
                    StatementView::SelectCommand { text },
                ).1
                &&& later.perform(StatementView::SelectCommand { text }).1 matches ReplyView::Found(
                    Some(_),
                )
                &&& later.commands.to_multiset().count(text) == 1
            }
        }),
{
    lemma_with_key(m.commands, text);
    let inserted = m.perform(StatementView::InsertCommand { text }).0;
    lemma_statements_keep_rows(inserted, others);
    let later = inserted.perform_all(others);
    if m.perform(StatementView::InsertCommand { text }).1 != ReplyView::Failed {
        assert(inserted.commands.contains(text));
        later.commands.to_multiset_ensures();
        later.commands.lemma_multiset_has_no_duplicates();
    }
}

/// Resolution of a place holds against whatever other sessions do, as that
/// of a command does.
pub proof fn lemma_place_resolution_survives(
    m: Relations,
    host: Seq<char>,
    directory: Seq<char>,
    others: Seq<StatementView>,
)
    requires
        m.wf(),
    ensures
        ({
            let (inserted, reply) = m.perform(StatementView::InsertPlace { host, directory });
            let later = inserted.perform_all(others);
            reply != ReplyView::Failed ==> {
                &&& later.perform(StatementView::SelectPlace { host, directory }).1
                    == inserted.perform(StatementView::SelectPlace { host, directory }).1
                &&& later.perform(
                    StatementView::SelectPlace { host, directory },
                ).1 matches ReplyView::Found(Some(_))
                &&& later.places.to_multiset().count((host, directory)) == 1
            }
        }),
{
    lemma_with_key(m.places, (host, directory));
    let inserted = m.perform(StatementView::InsertPlace { host, directory }).0;
    lemma_statements_keep_rows(inserted, others);
    let later = inserted.perform_all(others);
    if m.perform(StatementView::InsertPlace { host, directory }).1 != ReplyView::Failed {
        assert(inserted.places.contains((host, directory)));
        later.places.to_multiset_ensures();
        later.places.lemma_multiset_has_no_duplicates();
    }
}

} // verus!
