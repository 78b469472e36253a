use histdb::error::StoreError;
use histdb::rows::HistoryEntry;
use histdb::session::{Invocation, Outcome, Reply, Session, Statement, Step};
use histdb::store::Store;

fn start_of(host: &str, directory: &str, words: &[&str]) -> Invocation {
    Invocation::Start {
        host: host.to_string(),
        directory: directory.to_string(),
        words: words.iter().map(|w| w.to_string()).collect(),
    }
}

fn asked(step: Step) -> Statement {
    match step {
        Step::Ask(statement) => statement,
        other => panic!("the session should ask a statement, not {:?}", other),
    }
}

#[test]
fn init_asks_for_the_relations_and_is_done() {
    let (session, statement) = Session::open(Invocation::Init, 0);
    assert!(matches!(session, Session::Creating));
    assert!(matches!(statement, Statement::CreateRelations));
    let (session, step) = session.advance(Reply::Changed(0));
    assert!(matches!(session, Session::Finished));
    assert!(matches!(step, Step::Done(Outcome::Initialized)));
}

#[test]
fn init_that_fails_is_an_initialization_failure() {
    let (session, _) = Session::open(Invocation::Init, 0);
    let (session, step) = session.advance(Reply::Failed);
    assert!(matches!(session, Session::Finished));
    assert!(matches!(step, Step::Fail(StoreError::Initialization)));
}

#[test]
fn start_asks_its_five_statements_in_order() {
    let (session, statement) = Session::open(start_of("h1", "/tmp", &["ls", "-la"]), 100);
    match statement {
        Statement::InsertCommand { text } => assert_eq!(text, "ls -la"),
        other => panic!("unexpected statement {:?}", other),
    }
    let (session, step) = session.advance(Reply::Changed(1));
    match asked(step) {
        Statement::SelectCommand { text } => assert_eq!(text, "ls -la"),
        other => panic!("unexpected statement {:?}", other),
    }
    let (session, step) = session.advance(Reply::Found(Some(11)));
    match asked(step) {
        Statement::InsertPlace { host, directory } => {
            assert_eq!(host, "h1");
            assert_eq!(directory, "/tmp");
        }
        other => panic!("unexpected statement {:?}", other),
    }
    let (session, step) = session.advance(Reply::Changed(0));
    match asked(step) {
        Statement::SelectPlace { host, directory } => {
            assert_eq!(host, "h1");
            assert_eq!(directory, "/tmp");
        }
        other => panic!("unexpected statement {:?}", other),
    }
    let (session, step) = session.advance(Reply::Found(Some(22)));
    match asked(step) {
        Statement::InsertExecution { command_id, place_id, start_time } => {
            assert_eq!(command_id, 11);
            assert_eq!(place_id, 22);
            assert_eq!(start_time, 100);
        }
        other => panic!("unexpected statement {:?}", other),
    }
    let (session, step) = session.advance(Reply::Inserted(33));
    assert!(matches!(session, Session::Finished));
    assert!(matches!(step, Step::Done(Outcome::Started(33))));
}

#[test]
fn start_reads_the_identifier_back_even_when_nothing_was_inserted() {
    let (session, _) = Session::open(start_of("h1", "/tmp", &["ls"]), 1);
    let (_, step) = session.advance(Reply::Changed(0));
    assert!(matches!(asked(step), Statement::SelectCommand { .. }));
}

#[test]
fn start_fails_when_the_command_is_not_found_after_its_insert() {
    let (session, _) = Session::open(start_of("h1", "/tmp", &["ls"]), 1);
    let (session, _) = session.advance(Reply::Changed(1));
    let (session, step) = session.advance(Reply::Found(None));
    assert!(matches!(session, Session::Finished));
    assert!(matches!(step, Step::Fail(StoreError::Storage)));
}

#[test]
fn start_fails_when_the_place_is_not_found_after_its_insert() {
    let (session, _) = Session::open(start_of("h1", "/tmp", &["ls"]), 1);
    let (session, _) = session.advance(Reply::Changed(1));
    let (session, _) = session.advance(Reply::Found(Some(1)));
    let (session, _) = session.advance(Reply::Changed(1));
    let (_, step) = session.advance(Reply::Found(None));
    assert!(matches!(step, Step::Fail(StoreError::Storage)));
}

#[test]
fn start_fails_at_the_first_failure_of_the_engine() {
    let (session, _) = Session::open(start_of("h1", "/tmp", &["ls"]), 1);
    let (_, step) = session.advance(Reply::Failed);
    assert!(matches!(step, Step::Fail(StoreError::Storage)));

    let (session, _) = Session::open(start_of("h1", "/tmp", &["ls"]), 1);
    let (session, _) = session.advance(Reply::Changed(1));
    let (session, _) = session.advance(Reply::Found(Some(1)));
    let (_, step) = session.advance(Reply::Failed);
    assert!(matches!(step, Step::Fail(StoreError::Storage)));

    let (session, _) = Session::open(start_of("h1", "/tmp", &["ls"]), 1);
    let (session, _) = session.advance(Reply::Changed(1));
    let (session, _) = session.advance(Reply::Found(Some(1)));
    let (session, _) = session.advance(Reply::Changed(1));
    let (session, _) = session.advance(Reply::Found(Some(1)));
    let (_, step) = session.advance(Reply::Failed);
    assert!(matches!(step, Step::Fail(StoreError::Storage)));
}

#[test]
fn a_reply_of_the_wrong_kind_ends_the_session() {
    let (session, _) = Session::open(start_of("h1", "/tmp", &["ls"]), 1);
    let (session, step) = session.advance(Reply::Found(Some(1)));
    assert!(matches!(session, Session::Finished));
    assert!(matches!(step, Step::Fail(StoreError::Storage)));

    let (session, _) = Session::open(Invocation::List, 1);
    let (_, step) = session.advance(Reply::Changed(3));
    assert!(matches!(step, Step::Fail(StoreError::Storage)));

    let (session, _) = Session::open(Invocation::Init, 1);
    let (_, step) = session.advance(Reply::Inserted(1));
    assert!(matches!(step, Step::Fail(StoreError::Initialization)));
}

#[test]
fn a_finished_session_has_nothing_to_ask() {
    let (session, _) = Session::open(Invocation::Init, 0);
    let (session, _) = session.advance(Reply::Changed(0));
    let (session, step) = session.advance(Reply::Changed(0));
    assert!(matches!(session, Session::Finished));
    assert!(matches!(step, Step::Fail(StoreError::Storage)));
}

#[test]
fn end_asks_to_close_at_the_given_time() {
    let (session, statement) = Session::open(Invocation::End { id: 5, exit_code: 2 }, 777);
    assert!(matches!(session, Session::Closing));
    assert!(matches!(statement, Statement::CloseExecution { id: 5, exit_code: 2, end_time: 777 }));
    let (_, step) = session.advance(Reply::Changed(1));
    assert!(matches!(step, Step::Done(Outcome::Closed)));
}

#[test]
fn end_that_changes_no_row_is_not_found() {
    let (session, _) = Session::open(Invocation::End { id: 5, exit_code: 2 }, 777);
    let (session, step) = session.advance(Reply::Changed(0));
    assert!(matches!(session, Session::Finished));
    assert!(matches!(step, Step::Fail(StoreError::NotFound)));
}

#[test]
fn end_that_fails_is_a_storage_failure() {
    let (session, _) = Session::open(Invocation::End { id: 5, exit_code: 2 }, 777);
    let (_, step) = session.advance(Reply::Failed);
    assert!(matches!(step, Step::Fail(StoreError::Storage)));
}

#[test]
fn list_shows_the_entries_it_is_given() {
    let (session, statement) = Session::open(Invocation::List, 0);
    assert!(matches!(statement, Statement::SelectHistory));
    let entries = vec![
        HistoryEntry {
            execution_id: 2,
            exit_code: None,
            directory: "/b".to_string(),
            text: "two".to_string(),
        },
        HistoryEntry {
            execution_id: 1,
            exit_code: Some(4),
            directory: "/a".to_string(),
            text: "one".to_string(),
        },
    ];
    let (_, step) = session.advance(Reply::Entries(entries));
    match step {
        Step::Done(Outcome::Listed(rows)) => {
            assert_eq!(rows.len(), 2);
            assert_eq!(rows[0].line(), "id: 2\texit: 0\tdir: /b\targv: two");
            assert_eq!(rows[1].line(), "id: 1\texit: 4\tdir: /a\targv: one");
        }
        other => panic!("unexpected step {:?}", other),
    }
}

#[test]
fn run_round_trip_on_the_store() {
    let mut store = Store::new();
    assert!(matches!(store.run(Invocation::Init, 0), Ok(Outcome::Initialized)));
    assert!(matches!(
        store.run(start_of("h1", "/tmp", &["ls", "-la"]), 100),
        Ok(Outcome::Started(1))
    ));
    assert!(matches!(store.run(Invocation::End { id: 1, exit_code: 0 }, 105), Ok(Outcome::Closed)));
    match store.run(Invocation::List, 106) {
        Ok(Outcome::Listed(rows)) => {
            assert_eq!(rows.len(), 1);
            assert_eq!(rows[0].execution_id, 1);
            assert_eq!(rows[0].exit_code, 0);
            assert_eq!(rows[0].directory, "/tmp");
            assert_eq!(rows[0].text, "ls -la");
        }
        other => panic!("unexpected result {:?}", other),
    }
    assert_eq!(store.execution(1).unwrap().duration, Some(5));
}

#[test]
fn run_on_a_store_without_relations_fails() {
    let mut store = Store::new();
    assert!(matches!(store.run(start_of("h", "/", &["ls"]), 1), Err(StoreError::Storage)));
    assert!(matches!(store.run(Invocation::End { id: 1, exit_code: 0 }, 1), Err(StoreError::Storage)));
    assert!(matches!(store.run(Invocation::List, 1), Err(StoreError::Storage)));
    assert_eq!(store.command_count(), 0);
}

#[test]
fn run_reports_an_unknown_execution() {
    let mut store = Store::new();
    store.initialize();
    assert!(matches!(
        store.run(Invocation::End { id: 1, exit_code: 0 }, 1),
        Err(StoreError::NotFound)
    ));
    assert!(matches!(store.run(start_of("h", "/", &["ls"]), 1), Ok(Outcome::Started(1))));
    assert!(matches!(
        store.run(Invocation::End { id: 2, exit_code: 0 }, 1),
        Err(StoreError::NotFound)
    ));
}

#[test]
fn run_agrees_with_the_operations_of_the_store() {
    let mut by_run = Store::new();
    let mut by_hand = Store::new();
    by_run.run(Invocation::Init, 0).unwrap();
    by_hand.initialize();
    let times = [10i64, 20, 30, 40];
    let hosts = ["h1", "h2", "h1", "h1"];
    let dirs = ["/a", "/a", "/b", "/a"];
    let lines = [vec!["ls"], vec!["ls", "-l"], vec!["ls"], vec!["make", "all"]];
    for i in 0..4 {
        let ran = by_run.run(start_of(hosts[i], dirs[i], &lines[i]), times[i]);
        let expected = by_hand.start(hosts[i], dirs[i], &lines[i].join(" "), times[i]);
        match ran {
            Ok(Outcome::Started(id)) => assert_eq!(Ok(id), expected),
            other => panic!("unexpected result {:?}", other),
        }
    }
    by_run.run(Invocation::End { id: 3, exit_code: 1 }, 50).unwrap();
    by_hand.end(3, 1, 50).unwrap();
    assert_eq!(by_run.command_count(), by_hand.command_count());
    assert_eq!(by_run.place_count(), by_hand.place_count());
    for id in 1..=4 {
        assert_eq!(by_run.execution(id), by_hand.execution(id));
    }
    assert_eq!(by_run.command_count(), 3);
    assert_eq!(by_run.place_count(), 3);
}

#[test]
fn two_sessions_that_resolve_one_command_at_once_agree() {
    let mut store = Store::new();
    store.initialize();
    let (first, first_insert) = Session::open(start_of("h1", "/tmp", &["echo", "hi"]), 1);
    let (second, second_insert) = Session::open(start_of("h2", "/var", &["echo", "hi"]), 1);

    // Both insert before either reads the identifier back.
    let reply = store.perform(&first_insert);
    assert!(matches!(reply, Reply::Changed(1)));
    let (first, step) = first.advance(reply);
    let first_select = asked(step);
    let reply = store.perform(&second_insert);
    assert!(matches!(reply, Reply::Changed(0)));
    let (second, step) = second.advance(reply);
    let second_select = asked(step);

    let reply = store.perform(&second_select);
    assert!(matches!(reply, Reply::Found(Some(1))));
    let (_, second_next) = second.advance(reply);
    let reply = store.perform(&first_select);
    assert!(matches!(reply, Reply::Found(Some(1))));
    let (_, first_next) = first.advance(reply);

    assert!(matches!(asked(first_next), Statement::InsertPlace { .. }));
    assert!(matches!(asked(second_next), Statement::InsertPlace { .. }));
    assert_eq!(store.command_count(), 1);
    assert_eq!(store.command_id("echo hi"), Ok(Some(1)));
}

#[test]
fn perform_answers_each_statement() {
    let mut store = Store::new();
    assert!(matches!(store.perform(&Statement::SelectHistory), Reply::Failed));
    assert!(matches!(
        store.perform(&Statement::InsertCommand { text: "ls".to_string() }),
        Reply::Failed
    ));
    assert!(matches!(store.perform(&Statement::CreateRelations), Reply::Changed(0)));
    assert!(matches!(
        store.perform(&Statement::SelectCommand { text: "ls".to_string() }),
        Reply::Found(None)
    ));
    assert!(matches!(
        store.perform(&Statement::InsertCommand { text: "ls".to_string() }),
        Reply::Changed(1)
    ));
    assert!(matches!(
        store.perform(&Statement::InsertPlace { host: "h".to_string(), directory: "/".to_string() }),
        Reply::Changed(1)
    ));
    assert!(matches!(
        store.perform(&Statement::SelectPlace { host: "h".to_string(), directory: "/".to_string() }),
        Reply::Found(Some(1))
    ));
    assert!(matches!(
        store.perform(&Statement::InsertExecution { command_id: 1, place_id: 1, start_time: 3 }),
        Reply::Inserted(1)
    ));
    assert!(matches!(
        store.perform(&Statement::CloseExecution { id: 1, exit_code: 0, end_time: 4 }),
        Reply::Changed(1)
    ));
    assert!(matches!(
        store.perform(&Statement::CloseExecution { id: 9, exit_code: 0, end_time: 4 }),
        Reply::Changed(0)
    ));
    match store.perform(&Statement::SelectHistory) {
        Reply::Entries(entries) => {
            assert_eq!(entries.len(), 1);
            assert_eq!(entries[0].exit_code, Some(0));
        }
        other => panic!("unexpected reply {:?}", other),
    }
}
