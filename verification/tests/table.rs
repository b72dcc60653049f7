use libsql_shell::table::render_table;

fn texts(row: &[&str]) -> Vec<String> {
    row.iter().map(|s| s.to_string()).collect()
}

#[test]
fn table_has_a_line_under_the_header() {
    let columns = texts(&["id", "name"]);
    let rows = vec![texts(&["1", "a"]), texts(&["22", "bob"])];
    assert_eq!(
        render_table(&columns, &rows),
        " id | name \n----+------\n 1  | a    \n 22 | bob  "
    );
}

#[test]
fn table_of_one_cell() {
    let columns = texts(&["1"]);
    let rows = vec![texts(&["1"])];
    assert_eq!(render_table(&columns, &rows), " 1 \n---\n 1 ");
}

#[test]
fn rows_come_in_the_order_given() {
    let columns = texts(&["n"]);
    let rows = vec![texts(&["3"]), texts(&["1"]), texts(&["2"])];
    assert_eq!(render_table(&columns, &rows), " n \n---\n 3 \n 1 \n 2 ");
}
