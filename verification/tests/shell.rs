use libsql_shell::engine::{execute, show_row, QueryResult};
use libsql_shell::segment::get_str_statements;
use libsql_shell::shell::{answered, outcome_of, run_command, tables_query, Command, Outcome};
use libsql_shell::value::Value;
use rusqlite::Connection;

struct Report {
    statement: String,
    outcome: Outcome,
}

fn memory() -> Connection {
    Connection::open_in_memory().unwrap()
}

fn ask(connection: &Connection, statement: &str) -> Result<QueryResult, String> {
    match connection.prepare(statement) {
        Err(error) => Err(error.to_string()),
        Ok(mut prepared) => {
            let columns = prepared.column_names().into_iter().map(String::from).collect();
            execute(&mut prepared, columns)
        }
    }
}

fn run_one(connection: &Connection, statement: &str) -> Outcome {
    outcome_of(ask(connection, statement))
}

fn run_statement(connection: &Connection, statement: String) -> Vec<Report> {
    let mut reports = Vec::new();
    let mut source = get_str_statements(statement);
    let mut current = source.next();
    while let Some(statement) = current {
        let answer = ask(connection, &statement);
        let (outcome, next) = answered(&mut source, answer);
        reports.push(Report { statement, outcome });
        current = next;
    }
    reports
}

fn list_tables(pattern: Option<&str>, connection: &Connection) -> Vec<Report> {
    run_statement(connection, tables_query(pattern))
}

fn statements_of(reports: &[Report]) -> Vec<String> {
    reports.iter().map(|r| r.statement.clone()).collect()
}

fn table_of(outcome: &Outcome) -> String {
    match outcome {
        Outcome::Table(text) => text.clone(),
        Outcome::Empty => panic!("no rows"),
        Outcome::Failed(message) => panic!("failed: {}", message),
    }
}

#[test]
fn failed_statement_does_not_stop_the_next() {
    let connection = memory();
    let reports = run_statement(&connection, "SELEC 1; SELECT 1;".to_owned());
    assert_eq!(statements_of(&reports), vec!["SELEC 1;", "SELECT 1;"]);
    assert!(matches!(reports[0].outcome, Outcome::Failed(_)));
    assert_eq!(table_of(&reports[1].outcome), " 1 \n---\n 1 ");
}

#[test]
fn statements_run_in_order() {
    let connection = memory();
    let unit = "CREATE TABLE t (id INTEGER, name TEXT);; \
                INSERT INTO t VALUES (1, 'a;b'); INSERT INTO t VALUES (2, NULL); \
                SELECT id, name FROM t ORDER BY id;";
    let reports = run_statement(&connection, unit.to_owned());
    assert_eq!(
        statements_of(&reports),
        vec![
            "CREATE TABLE t (id INTEGER, name TEXT);",
            "INSERT INTO t VALUES (1, 'a;b');",
            "INSERT INTO t VALUES (2, NULL);",
            "SELECT id, name FROM t ORDER BY id;",
        ]
    );
    assert!(matches!(reports[0].outcome, Outcome::Empty));
    assert!(matches!(reports[1].outcome, Outcome::Empty));
    assert!(matches!(reports[2].outcome, Outcome::Empty));
    assert_eq!(
        table_of(&reports[3].outcome),
        " id | name \n----+------\n 1  | a;b  \n 2  | null "
    );
}

#[test]
fn unit_without_statement_runs_nothing() {
    let connection = memory();
    assert!(run_statement(&connection, ";;;".to_owned()).is_empty());
    assert!(run_statement(&connection, "SELECT 1".to_owned()).is_empty());
    assert!(run_statement(&connection, String::new()).is_empty());
}

#[test]
fn failure_to_run_is_reported() {
    let connection = memory();
    let unit = "CREATE TABLE u (id INTEGER PRIMARY KEY); INSERT INTO u VALUES (1); \
                INSERT INTO u VALUES (1); SELECT count(*) FROM u;";
    let reports = run_statement(&connection, unit.to_owned());
    assert_eq!(reports.len(), 4);
    assert!(matches!(reports[2].outcome, Outcome::Failed(_)));
    assert_eq!(table_of(&reports[3].outcome), " count(*) \n----------\n 1        ");
}

#[test]
fn every_kind_of_value_is_shown() {
    let connection = memory();
    let outcome = run_one(&connection, "SELECT NULL, -12, 1.5, 'txt', x'010203';");
    assert_eq!(
        table_of(&outcome),
        " NULL | -12 | 1.5 | 'txt' | x'010203' \n\
         ------+-----+-----+-------+-----------\n \
         null | -12 | 1.5 | txt   | 0xAQID    "
    );
}

#[test]
fn statement_with_parameters_fails() {
    let connection = memory();
    assert!(matches!(run_one(&connection, "SELECT ?;"), Outcome::Failed(_)));
}

#[test]
fn execute_gives_names_and_rows() {
    let connection = memory();
    let result = ask(&connection, "SELECT 1 AS a, 'x' AS b UNION ALL SELECT 2, 'y'").unwrap();
    assert_eq!(result.columns, vec!["a", "b"]);
    assert_eq!(result.rows, vec![vec!["1", "x"], vec!["2", "y"]]);
    let mut statement = connection.prepare("SELECT 1, 2, 3").unwrap();
    let given = vec!["one".to_owned(), "two".to_owned()];
    let result = execute(&mut statement, given).unwrap();
    assert_eq!(result.columns, vec!["one", "two"]);
    assert_eq!(result.rows, vec![vec!["1", "2"]]);
    let mut statement = connection.prepare("SELECT 1").unwrap();
    match execute(&mut statement, vec!["a".to_owned(), "b".to_owned()]) {
        Err(message) => assert!(message.contains("Invalid column index"), "{}", message),
        Ok(_) => panic!("expected a failure"),
    }
}

#[test]
fn show_row_shows_each_value() {
    let values = vec![Value::Null, Value::Integer(7), Value::Blob(vec![1, 2, 3])];
    assert_eq!(show_row(&values), vec!["null", "7", "0xAQID"]);
    assert_eq!(show_row(&Vec::new()), Vec::<String>::new());
}

#[test]
fn outcome_of_a_result() {
    let empty = QueryResult { columns: vec!["a".to_owned()], rows: vec![] };
    assert!(matches!(outcome_of(Ok(empty)), Outcome::Empty));
    let one = QueryResult { columns: vec!["a".to_owned()], rows: vec![vec!["1".to_owned()]] };
    assert_eq!(table_of(&outcome_of(Ok(one))), " a \n---\n 1 ");
    match outcome_of(Err("no such table: t".to_owned())) {
        Outcome::Failed(message) => assert_eq!(message, "no such table: t"),
        _ => panic!("expected a failure"),
    }
}

#[test]
fn output_of_an_outcome() {
    assert_eq!(Outcome::Empty.output(), None);
    assert_eq!(Outcome::Table("t".to_owned()).output(), Some("t".to_owned()));
    assert_eq!(
        Outcome::Failed("no such table: x".to_owned()).output(),
        Some("Error: no such table: x".to_owned())
    );
}

#[test]
fn error_message_is_that_of_the_database() {
    let connection = memory();
    match run_one(&connection, "SELECT * FROM missing;") {
        Outcome::Failed(message) => assert!(message.contains("no such table: missing"), "{}", message),
        _ => panic!("expected a failure"),
    }
}

#[test]
fn tables_query_text() {
    assert_eq!(
        tables_query(None),
        "SELECT name FROM sqlite_schema WHERE type ='table' AND name NOT LIKE 'sqlite_%';"
    );
    assert_eq!(
        tables_query(Some("'a%'")),
        "SELECT name FROM sqlite_schema WHERE type ='table' AND name NOT LIKE 'sqlite_%'AND name LIKE 'a%';"
    );
}

#[test]
fn list_tables_lists_tables() {
    let connection = memory();
    run_statement(&connection, "CREATE TABLE apple (x); CREATE TABLE berry (y);".to_owned());
    let all = list_tables(None, &connection);
    assert_eq!(all.len(), 1);
    assert_eq!(table_of(&all[0].outcome), " name  \n-------\n apple \n berry ");
    let some = list_tables(Some("'b%'"), &connection);
    assert_eq!(some.len(), 1);
    assert_eq!(table_of(&some[0].outcome), " name  \n-------\n berry ");
    let none = list_tables(Some("'z%'"), &connection);
    assert!(matches!(none[0].outcome, Outcome::Empty));
}

#[test]
fn run_command_knows_quit_and_tables() {
    assert!(matches!(run_command("quit", &vec![]), Command::Quit));
    assert!(matches!(run_command("quit", &vec!["now".to_owned()]), Command::Quit));
    match run_command("tables", &vec!["'a%'".to_owned(), "ignored".to_owned()]) {
        Command::Tables(unit) => assert_eq!(unit, tables_query(Some("'a%'"))),
        _ => panic!("expected a listing"),
    }
    match run_command("tables", &vec![]) {
        Command::Tables(unit) => assert_eq!(unit, tables_query(None)),
        _ => panic!("expected a listing"),
    }
}

#[test]
fn tables_directive_lists_tables() {
    let connection = memory();
    run_statement(&connection, "CREATE TABLE apple (x); CREATE TABLE berry (y);".to_owned());
    match run_command("tables", &vec!["'a%'".to_owned()]) {
        Command::Tables(unit) => {
            let reports = run_statement(&connection, unit);
            assert_eq!(reports.len(), 1);
            assert_eq!(table_of(&reports[0].outcome), " name  \n-------\n apple ");
        }
        _ => panic!("expected a listing"),
    }
}

#[test]
fn run_command_reports_unknown_names() {
    match run_command("help", &vec![]) {
        Command::Unknown(message) => assert_eq!(message, "Unknown command 'help'"),
        _ => panic!("expected unknown"),
    }
    match run_command("", &vec!["quit".to_owned()]) {
        Command::Unknown(message) => assert_eq!(message, "Unknown command ''"),
        _ => panic!("expected unknown"),
    }
    assert!(matches!(run_command("Quit", &vec![]), Command::Unknown(_)));
}

#[test]
fn answer_does_not_change_what_is_run_next() {
    let unit = "a; b; c";
    let failure: Result<QueryResult, String> = Err("no".to_owned());
    let success = Ok(QueryResult { columns: vec!["n".to_owned()], rows: vec![vec!["1".to_owned()]] });
    let mut first = get_str_statements(unit.to_owned());
    let mut second = get_str_statements(unit.to_owned());
    assert_eq!(first.next(), Some("a;".to_owned()));
    assert_eq!(second.next(), Some("a;".to_owned()));
    let (shown, next) = answered(&mut first, failure);
    assert!(matches!(shown, Outcome::Failed(_)));
    assert_eq!(next, Some("b;".to_owned()));
    let (shown, next) = answered(&mut second, success);
    assert_eq!(table_of(&shown), " n \n---\n 1 ");
    assert_eq!(next, Some("b;".to_owned()));
    let (_, next) = answered(&mut first, Ok(QueryResult { columns: vec![], rows: vec![] }));
    assert_eq!(next, None);
    assert_eq!(first.remaining(), " c");
}
