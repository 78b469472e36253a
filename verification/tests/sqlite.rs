use histdb::error::StoreError;
use histdb::session::{Invocation, Outcome, Reply, Session, Statement, Step};
use histdb::sqlite::{ask, run};
use histdb::store::Store;
use rusqlite::Connection;

fn start_of(host: &str, directory: &str, words: &[&str]) -> Invocation {
    Invocation::Start {
        host: host.to_string(),
        directory: directory.to_string(),
        words: words.iter().map(|w| w.to_string()).collect(),
    }
}

fn database() -> Connection {
    let connection = Connection::open_in_memory().unwrap();
    assert!(matches!(run(&connection, Invocation::Init, 0), Ok(Outcome::Initialized)));
    connection
}

fn count(connection: &Connection, sql: &str) -> i64 {
    connection.query_row(sql, (), |row| row.get(0)).unwrap()
}

fn started(connection: &Connection, invocation: Invocation, now: i64) -> i64 {
    match run(connection, invocation, now) {
        Ok(Outcome::Started(id)) => id,
        other => panic!("unexpected result {:?}", other),
    }
}

#[test]
fn sqlite_round_trip_listing() {
    let connection = Connection::open_in_memory().unwrap();
    assert!(matches!(run(&connection, Invocation::Init, 0), Ok(Outcome::Initialized)));
    let id = started(&connection, start_of("h1", "/tmp", &["ls", "-la"]), 100);
    assert_eq!(id, 1);
    assert!(matches!(
        run(&connection, Invocation::End { id: 1, exit_code: 0 }, 104),
        Ok(Outcome::Closed)
    ));
    match run(&connection, Invocation::List, 105) {
        Ok(Outcome::Listed(rows)) => {
            assert_eq!(rows.len(), 1);
            assert_eq!(rows[0].execution_id, 1);
            assert_eq!(rows[0].exit_code, 0);
            assert_eq!(rows[0].directory, "/tmp");
            assert_eq!(rows[0].text, "ls -la");
            assert_eq!(rows[0].line(), "id: 1\texit: 0\tdir: /tmp\targv: ls -la");
        }
        other => panic!("unexpected result {:?}", other),
    }
}

#[test]
fn sqlite_init_twice_keeps_the_rows() {
    let connection = database();
    started(&connection, start_of("h1", "/tmp", &["ls"]), 1);
    assert!(matches!(run(&connection, Invocation::Init, 2), Ok(Outcome::Initialized)));
    assert!(matches!(run(&connection, Invocation::Init, 3), Ok(Outcome::Initialized)));
    assert_eq!(count(&connection, "SELECT COUNT(*) FROM commands"), 1);
    assert_eq!(count(&connection, "SELECT COUNT(*) FROM places"), 1);
    assert_eq!(count(&connection, "SELECT COUNT(*) FROM history"), 1);
}

#[test]
fn sqlite_resolves_a_command_to_one_row() {
    let connection = database();
    started(&connection, start_of("h1", "/tmp", &["echo", "hi"]), 1);
    started(&connection, start_of("h2", "/var", &["echo", "hi"]), 2);
    started(&connection, start_of("h3", "/", &["echo", "hi"]), 3);
    assert_eq!(count(&connection, "SELECT COUNT(*) FROM commands WHERE argv = 'echo hi'"), 1);
    assert_eq!(count(&connection, "SELECT COUNT(DISTINCT command_id) FROM history"), 1);
    assert_eq!(count(&connection, "SELECT COUNT(*) FROM places"), 3);
}

#[test]
fn sqlite_resolves_a_place_to_one_row() {
    let connection = database();
    started(&connection, start_of("h1", "/tmp", &["a"]), 1);
    started(&connection, start_of("h1", "/tmp", &["b"]), 2);
    started(&connection, start_of("h1", "/var", &["c"]), 3);
    started(&connection, start_of("h2", "/tmp", &["d"]), 4);
    assert_eq!(
        count(&connection, "SELECT COUNT(*) FROM places WHERE host = 'h1' AND dir = '/tmp'"),
        1
    );
    assert_eq!(count(&connection, "SELECT COUNT(*) FROM places"), 3);
    assert_eq!(count(&connection, "SELECT COUNT(DISTINCT place_id) FROM history"), 3);
}

#[test]
fn sqlite_start_twice_gives_two_executions() {
    let connection = database();
    let first = started(&connection, start_of("h1", "/tmp", &["ls"]), 5);
    let second = started(&connection, start_of("h1", "/tmp", &["ls"]), 5);
    assert_ne!(first, second);
    assert_eq!(count(&connection, "SELECT COUNT(*) FROM history"), 2);
    assert_eq!(count(&connection, "SELECT COUNT(*) FROM commands"), 1);
    assert_eq!(count(&connection, "SELECT COUNT(*) FROM places"), 1);
}

#[test]
fn sqlite_end_records_exit_code_and_duration() {
    let connection = database();
    let id = started(&connection, start_of("h1", "/tmp", &["sleep", "42"]), 1000);
    assert!(matches!(
        run(&connection, Invocation::End { id, exit_code: 7 }, 1042),
        Ok(Outcome::Closed)
    ));
    assert_eq!(count(&connection, "SELECT duration FROM history WHERE id = 1"), 42);
    assert_eq!(count(&connection, "SELECT exit_code FROM history WHERE id = 1"), 7);
    assert_eq!(count(&connection, "SELECT start_time FROM history WHERE id = 1"), 1000);
}

#[test]
fn sqlite_end_with_an_unknown_identifier_is_not_found() {
    let connection = database();
    match run(&connection, Invocation::End { id: 1, exit_code: 0 }, 10) {
        Err(failure) => {
            assert_eq!(failure.kind, StoreError::NotFound);
            assert!(failure.cause.is_none());
        }
        other => panic!("unexpected result {:?}", other),
    }
    started(&connection, start_of("h1", "/tmp", &["ls"]), 1);
    assert!(matches!(
        run(&connection, Invocation::End { id: 2, exit_code: 0 }, 10),
        Err(failure) if failure.kind == StoreError::NotFound
    ));
    assert_eq!(count(&connection, "SELECT COUNT(*) FROM history WHERE exit_code IS NOT NULL"), 0);
}

#[test]
fn sqlite_without_relations_fails_with_the_cause() {
    let connection = Connection::open_in_memory().unwrap();
    match run(&connection, start_of("h1", "/tmp", &["ls"]), 1) {
        Err(failure) => {
            assert_eq!(failure.kind, StoreError::Storage);
            assert!(failure.cause.is_some());
        }
        other => panic!("unexpected result {:?}", other),
    }
    assert!(matches!(
        run(&connection, Invocation::End { id: 1, exit_code: 0 }, 1),
        Err(failure) if failure.kind == StoreError::Storage
    ));
    assert!(matches!(
        run(&connection, Invocation::List, 1),
        Err(failure) if failure.kind == StoreError::Storage
    ));
}

#[test]
fn sqlite_init_on_a_read_only_database_is_an_initialization_failure() {
    let connection = Connection::open_in_memory().unwrap();
    connection.execute_batch("PRAGMA query_only = ON").unwrap();
    match run(&connection, Invocation::Init, 0) {
        Err(failure) => {
            assert_eq!(failure.kind, StoreError::Initialization);
            assert!(failure.cause.is_some());
        }
        other => panic!("unexpected result {:?}", other),
    }
}

#[test]
fn sqlite_lists_open_executions_with_exit_code_zero() {
    let connection = database();
    started(&connection, start_of("h1", "/a", &["one"]), 1);
    started(&connection, start_of("h1", "/b", &["two"]), 2);
    run(&connection, Invocation::End { id: 2, exit_code: 3 }, 9).unwrap();
    match run(&connection, Invocation::List, 10) {
        Ok(Outcome::Listed(rows)) => {
            assert_eq!(rows.len(), 2);
            assert_eq!(rows[0].line(), "id: 1\texit: 0\tdir: /a\targv: one");
            assert_eq!(rows[1].line(), "id: 2\texit: 3\tdir: /b\targv: two");
        }
        other => panic!("unexpected result {:?}", other),
    }
}

#[test]
fn sqlite_two_connections_resolve_one_command_at_once() {
    let name = "file:histdb_two_connections?mode=memory&cache=shared";
    let first_connection = Connection::open(name).unwrap();
    let second_connection = Connection::open(name).unwrap();
    run(&first_connection, Invocation::Init, 0).unwrap();

    let (first, first_insert) = Session::open(start_of("h1", "/tmp", &["echo", "hi"]), 1);
    let (second, second_insert) = Session::open(start_of("h2", "/var", &["echo", "hi"]), 1);

    // Both insert before either reads the identifier back.
    let (first, step) = first.advance(ask(&first_connection, &first_insert).reply);
    let first_select = match step {
        Step::Ask(statement) => statement,
        other => panic!("unexpected step {:?}", other),
    };
    let (second, step) = second.advance(ask(&second_connection, &second_insert).reply);
    let second_select = match step {
        Step::Ask(statement) => statement,
        other => panic!("unexpected step {:?}", other),
    };
    let second_found = ask(&second_connection, &second_select).reply;
    let first_found = ask(&first_connection, &first_select).reply;
    let first_id = match first_found {
        Reply::Found(Some(id)) => id,
        other => panic!("unexpected reply {:?}", other),
    };
    let second_id = match second_found {
        Reply::Found(Some(id)) => id,
        other => panic!("unexpected reply {:?}", other),
    };
    assert_eq!(first_id, second_id);
    assert_eq!(
        count(&first_connection, "SELECT COUNT(*) FROM commands WHERE argv = 'echo hi'"),
        1
    );
    let (_, step) = first.advance(Reply::Found(Some(first_id)));
    assert!(matches!(step, Step::Ask(Statement::InsertPlace { .. })));
    let (_, step) = second.advance(Reply::Found(Some(second_id)));
    assert!(matches!(step, Step::Ask(Statement::InsertPlace { .. })));
}

#[test]
fn sqlite_answers_as_the_store_does() {
    let connection = Connection::open_in_memory().unwrap();
    let mut store = Store::new();
    let script: Vec<(Invocation, Invocation, i64)> = vec![
        (Invocation::List, Invocation::List, 1),
        (Invocation::Init, Invocation::Init, 2),
        (Invocation::List, Invocation::List, 3),
        (start_of("h1", "/tmp", &["ls", "-la"]), start_of("h1", "/tmp", &["ls", "-la"]), 10),
        (start_of("h1", "/tmp", &["ls", "-la"]), start_of("h1", "/tmp", &["ls", "-la"]), 11),
        (start_of("h2", "/tmp", &["ls"]), start_of("h2", "/tmp", &["ls"]), 12),
        (start_of("h1", "/", &[]), start_of("h1", "/", &[]), 13),
        (Invocation::End { id: 2, exit_code: 1 }, Invocation::End { id: 2, exit_code: 1 }, 20),
        (Invocation::End { id: 9, exit_code: 1 }, Invocation::End { id: 9, exit_code: 1 }, 21),
        (Invocation::End { id: 0, exit_code: 1 }, Invocation::End { id: 0, exit_code: 1 }, 22),
        (Invocation::End { id: 2, exit_code: -5 }, Invocation::End { id: 2, exit_code: -5 }, 23),
        (Invocation::Init, Invocation::Init, 24),
        (Invocation::List, Invocation::List, 25),
    ];
    for (for_database, for_store, now) in script {
        let from_database = run(&connection, for_database, now);
        let from_store = store.run(for_store, now);
        match (from_database, from_store) {
            (Ok(Outcome::Initialized), Ok(Outcome::Initialized)) => {}
            (Ok(Outcome::Closed), Ok(Outcome::Closed)) => {}
            (Ok(Outcome::Started(a)), Ok(Outcome::Started(b))) => assert_eq!(a, b),
            (Ok(Outcome::Listed(a)), Ok(Outcome::Listed(b))) => {
                assert_eq!(a.len(), b.len());
                for i in 0..a.len() {
                    assert_eq!(a[i].line(), b[i].line());
                }
            }
            (Err(failure), Err(kind)) => assert_eq!(failure.kind, kind),
            (a, b) => panic!("the database gave {:?}, the store {:?}", a, b),
        }
    }
    assert_eq!(count(&connection, "SELECT COUNT(*) FROM commands"), store.command_count() as i64);
    assert_eq!(count(&connection, "SELECT COUNT(*) FROM places"), store.place_count() as i64);
    assert_eq!(count(&connection, "SELECT duration FROM history WHERE id = 2"), 12);
    assert_eq!(store.execution(2).unwrap().duration, Some(12));
    assert_eq!(store.execution(2).unwrap().exit_code, Some(-5));
}

#[test]
fn sqlite_binds_texts_as_they_are() {
    let connection = database();
    started(&connection, start_of("h'1", "/tmp; DROP TABLE history", &["echo", "'quoted'", "?1"]), 1);
    match run(&connection, Invocation::List, 2) {
        Ok(Outcome::Listed(rows)) => {
            assert_eq!(rows.len(), 1);
            assert_eq!(rows[0].directory, "/tmp; DROP TABLE history");
            assert_eq!(rows[0].text, "echo 'quoted' ?1");
        }
        other => panic!("unexpected result {:?}", other),
    }
    assert_eq!(count(&connection, "SELECT COUNT(*) FROM places WHERE host = 'h''1'"), 1);
}
