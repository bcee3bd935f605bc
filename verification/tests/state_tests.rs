use tasklist::codec::Status;
use tasklist::state::render_frame;
use tasklist::state::App;
use tasklist::ui::Style;
use tasklist::ui::Ui;

fn list(items: &[&str]) -> Vec<String> {
    items.iter().map(|s| s.to_string()).collect()
}

fn app_with(todos: &[&str], done: &[&str]) -> App {
    let mut app = App::new();
    app.todos = list(todos);
    app.done = list(done);
    app
}

#[test]
fn new_session_starts_on_empty_todo_tab() {
    let app = App::new();
    assert!(app.todos.is_empty());
    assert!(app.done.is_empty());
    assert_eq!(app.todo_curr, 0);
    assert_eq!(app.done_curr, 0);
    assert_eq!(app.status, Status::Todo);
    assert!(!app.quit);
}

#[test]
fn quit_key_raises_the_quit_flag() {
    let mut app = app_with(&["x"], &[]);
    app.handle_key('q');
    assert!(app.quit);
    assert_eq!(app.todos, list(&["x"]));
}

#[test]
fn tab_key_toggles_the_active_tab() {
    let mut app = App::new();
    app.handle_key('\t');
    assert_eq!(app.status, Status::Done);
    app.handle_key('\t');
    assert_eq!(app.status, Status::Todo);
}

#[test]
fn unknown_key_changes_nothing() {
    let mut app = app_with(&["a", "b"], &["c"]);
    app.todo_curr = 1;
    app.handle_key('z');
    assert_eq!(app.todos, list(&["a", "b"]));
    assert_eq!(app.done, list(&["c"]));
    assert_eq!(app.todo_curr, 1);
    assert_eq!(app.status, Status::Todo);
    assert!(!app.quit);
}

#[test]
fn navigation_keys_move_the_active_cursor() {
    let mut app = app_with(&["a", "b", "c"], &[]);
    app.handle_key('s');
    assert_eq!(app.todo_curr, 1);
    app.handle_key('s');
    assert_eq!(app.todo_curr, 2);
    app.handle_key('s');
    assert_eq!(app.todo_curr, 2);
    app.handle_key('w');
    assert_eq!(app.todo_curr, 1);
}

#[test]
fn each_tab_keeps_its_own_cursor() {
    let mut app = app_with(&["a", "b"], &["c", "d"]);
    app.handle_key('s');
    assert_eq!(app.todo_curr, 1);
    app.handle_key('\t');
    app.handle_key('s');
    assert_eq!(app.done_curr, 1);
    app.handle_key('\t');
    assert_eq!(app.todo_curr, 1);
}

#[test]
fn confirm_moves_the_only_item_and_clamps_cursor() {
    let mut app = app_with(&["x"], &[]);
    app.handle_key('\n');
    assert_eq!(app.todos, list(&[]));
    assert_eq!(app.done, list(&["x"]));
    assert_eq!(app.todo_curr, 0);
}

#[test]
fn confirm_moves_middle_item_and_keeps_cursor() {
    let mut app = app_with(&["a", "b", "c"], &[]);
    app.todo_curr = 1;
    app.handle_key('\n');
    assert_eq!(app.todos, list(&["a", "c"]));
    assert_eq!(app.done, list(&["b"]));
    assert_eq!(app.todo_curr, 1);
}

#[test]
fn confirm_on_done_tab_moves_item_back() {
    let mut app = app_with(&["a"], &["b"]);
    app.handle_key('\t');
    app.handle_key('\n');
    assert_eq!(app.todos, list(&["a", "b"]));
    assert_eq!(app.done, list(&[]));
    assert_eq!(app.done_curr, 0);
}

#[test]
fn frame_on_todo_tab_brackets_todo_and_marks_selection() {
    let app = {
        let mut app = app_with(&["a", "b"], &["c"]);
        app.todo_curr = 1;
        app
    };
    let mut ui = Ui::default();
    let cmds = render_frame(&app, &mut ui);
    assert_eq!(cmds.len(), 4);
    assert_eq!(cmds[0].text, "[TODO] DONE ");
    assert_eq!(cmds[0].style, Style::Regular);
    assert_eq!(cmds[1].text, "------------");
    assert_eq!(cmds[2].text, " [ ] a");
    assert_eq!(cmds[2].style, Style::Regular);
    assert_eq!(cmds[3].text, " [-] b");
    assert_eq!(cmds[3].style, Style::Highlight);
    for (i, cmd) in cmds.iter().enumerate() {
        assert_eq!(cmd.row, i);
        assert_eq!(cmd.col, 0);
    }
}

#[test]
fn frame_on_done_tab_brackets_done_and_crosses_rows() {
    let app = {
        let mut app = app_with(&["a"], &["c", "d"]);
        app.status = Status::Done;
        app
    };
    let mut ui = Ui::default();
    let cmds = render_frame(&app, &mut ui);
    assert_eq!(cmds.len(), 4);
    assert_eq!(cmds[0].text, " TODO [DONE]");
    assert_eq!(cmds[2].text, " [x] c");
    assert_eq!(cmds[2].style, Style::Highlight);
    assert_eq!(cmds[3].text, " [x] d");
    assert_eq!(cmds[3].style, Style::Regular);
}

#[test]
fn full_session_scenario() {
    let mut app = app_with(&["a", "b", "c"], &[]);
    app.handle_key('s');
    app.handle_key('\n');
    assert_eq!(app.todos, list(&["a", "c"]));
    assert_eq!(app.done, list(&["b"]));
    app.handle_key('\n');
    assert_eq!(app.todos, list(&["a"]));
    assert_eq!(app.done, list(&["b", "c"]));
    assert_eq!(app.todo_curr, 0);
    app.handle_key('q');
    assert!(app.quit);
}
