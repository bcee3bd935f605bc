use tasklist::codec::load_state;
use tasklist::codec::parse_item;
use tasklist::codec::save_state;
use tasklist::codec::trim_str;
use tasklist::codec::Status;

fn list(items: &[&str]) -> Vec<String> {
    items.iter().map(|s| s.to_string()).collect()
}

#[test]
fn toggle_switches_tabs() {
    assert_eq!(Status::Todo.toggle(), Status::Done);
    assert_eq!(Status::Done.toggle(), Status::Todo);
}

#[test]
fn trim_strips_surrounding_whitespace() {
    assert_eq!(trim_str("  buy milk \t "), "buy milk");
    assert_eq!(trim_str("clean"), "clean");
    assert_eq!(trim_str("   "), "");
    assert_eq!(trim_str(""), "");
}

#[test]
fn parse_todo_line() {
    assert_eq!(parse_item("TODO: buy milk"), Some((Status::Todo, "buy milk")));
}

#[test]
fn parse_done_line() {
    assert_eq!(parse_item("DONE: water plants"), Some((Status::Done, "water plants")));
}

#[test]
fn parse_trims_the_item() {
    assert_eq!(parse_item("TODO:   spaced out  "), Some((Status::Todo, "spaced out")));
}

#[test]
fn parse_rejects_malformed_lines() {
    assert_eq!(parse_item("random text"), None);
    assert_eq!(parse_item(""), None);
    assert_eq!(parse_item("TODO:no space"), None);
    assert_eq!(parse_item("todo: lower case"), None);
    assert_eq!(parse_item("TODO"), None);
}

#[test]
fn save_writes_todos_then_dones() {
    let todos = list(&["a", "b"]);
    let done = list(&["c"]);
    assert_eq!(save_state(&todos, &done), "TODO: a\nTODO: b\nDONE: c\n");
}

#[test]
fn save_of_empty_lists_is_empty() {
    assert_eq!(save_state(&Vec::new(), &Vec::new()), "");
}

#[test]
fn round_trip_restores_both_lists() {
    let todos = list(&["a", "b"]);
    let done = list(&["c"]);
    let saved = save_state(&todos, &done);
    let mut todos2: Vec<String> = Vec::new();
    let mut done2: Vec<String> = Vec::new();
    assert!(load_state(&mut todos2, &mut done2, &saved).is_ok());
    assert_eq!(todos2, todos);
    assert_eq!(done2, done);
}

#[test]
fn malformed_second_line_names_line_two() {
    let mut todos: Vec<String> = Vec::new();
    let mut done: Vec<String> = Vec::new();
    let err = load_state(&mut todos, &mut done, "TODO: x\nrandom text\n").unwrap_err();
    assert_eq!(err.line, 2);
}

#[test]
fn blank_line_is_malformed() {
    let mut todos: Vec<String> = Vec::new();
    let mut done: Vec<String> = Vec::new();
    let err = load_state(&mut todos, &mut done, "TODO: a\n\nDONE: b\n").unwrap_err();
    assert_eq!(err.line, 2);
}

#[test]
fn failed_load_leaves_lists_unchanged() {
    let mut todos = list(&["kept"]);
    let mut done = list(&["also kept"]);
    assert!(load_state(&mut todos, &mut done, "TODO: a\noops\n").is_err());
    assert_eq!(todos, list(&["kept"]));
    assert_eq!(done, list(&["also kept"]));
}

#[test]
fn interleaved_lines_are_bucketed_in_file_order() {
    let mut todos: Vec<String> = Vec::new();
    let mut done: Vec<String> = Vec::new();
    let content = "DONE: c\nTODO: a\nDONE: d\nTODO: b\n";
    assert!(load_state(&mut todos, &mut done, content).is_ok());
    assert_eq!(todos, list(&["a", "b"]));
    assert_eq!(done, list(&["c", "d"]));
}

#[test]
fn load_appends_to_existing_lists() {
    let mut todos = list(&["old"]);
    let mut done: Vec<String> = Vec::new();
    assert!(load_state(&mut todos, &mut done, "TODO: new\n").is_ok());
    assert_eq!(todos, list(&["old", "new"]));
}

#[test]
fn empty_content_loads_empty_lists() {
    let mut todos: Vec<String> = Vec::new();
    let mut done: Vec<String> = Vec::new();
    assert!(load_state(&mut todos, &mut done, "").is_ok());
    assert!(todos.is_empty());
    assert!(done.is_empty());
}

#[test]
fn missing_trailing_newline_still_loads() {
    let mut todos: Vec<String> = Vec::new();
    let mut done: Vec<String> = Vec::new();
    assert!(load_state(&mut todos, &mut done, "TODO: a").is_ok());
    assert_eq!(todos, list(&["a"]));
}

#[test]
fn carriage_return_is_trimmed_from_items() {
    let mut todos: Vec<String> = Vec::new();
    let mut done: Vec<String> = Vec::new();
    assert!(load_state(&mut todos, &mut done, "TODO: a\r\nDONE: b\r\n").is_ok());
    assert_eq!(todos, list(&["a"]));
    assert_eq!(done, list(&["b"]));
}
