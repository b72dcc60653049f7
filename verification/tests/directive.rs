use libsql_shell::directive::{parse_directive, split_words};
use libsql_shell::text::chars_of;

fn parsed(unit: &str) -> Option<(String, Vec<String>)> {
    parse_directive(unit).map(|d| (d.name, d.args))
}

#[test]
fn line_without_marker_is_no_directive() {
    assert!(parsed("").is_none());
    assert!(parsed("tables").is_none());
    assert!(parsed(" .tables").is_none());
    assert!(parsed("SELECT 1;").is_none());
}

#[test]
fn name_alone() {
    assert_eq!(parsed(".quit"), Some(("quit".to_owned(), vec![])));
    assert_eq!(parsed("."), Some(("".to_owned(), vec![])));
}

#[test]
fn name_and_arguments() {
    assert_eq!(
        parsed(".tables 'foo%'"),
        Some(("tables".to_owned(), vec!["'foo%'".to_owned()]))
    );
    assert_eq!(
        parsed(".tables   a \t b\u{a0}c"),
        Some(("tables".to_owned(), vec!["a".to_owned(), "b".to_owned(), "c".to_owned()]))
    );
    assert_eq!(parsed(".tables "), Some(("tables".to_owned(), vec![])));
}

#[test]
fn name_ends_at_the_first_space_only() {
    assert_eq!(parsed(". quit"), Some(("".to_owned(), vec!["quit".to_owned()])));
    assert_eq!(parsed(".tables\tfoo"), Some(("tables\tfoo".to_owned(), vec![])));
    assert_eq!(
        parsed(".é ü;"),
        Some(("é".to_owned(), vec!["ü;".to_owned()]))
    );
}

#[test]
fn words_are_those_of_split_whitespace() {
    let cases = ["", "   ", "a", " a  b ", "\ta\nb\u{3000}c d", "é  日本 ;"];
    for case in cases {
        let expected: Vec<String> = case.split_whitespace().map(String::from).collect();
        assert_eq!(split_words(case, &chars_of(case), 0), expected, "{:?}", case);
    }
}

#[test]
fn words_from_a_position_on() {
    let text = "ab cd ef";
    let chars = chars_of(text);
    assert_eq!(split_words(text, &chars, 1), vec!["b", "cd", "ef"]);
    assert_eq!(split_words(text, &chars, 5), vec!["ef"]);
    assert_eq!(split_words(text, &chars, 8), Vec::<String>::new());
}
