use tasklist::ops::list_down;
use tasklist::ops::list_transfer;
use tasklist::ops::list_up;

fn list(items: &[&str]) -> Vec<String> {
    items.iter().map(|s| s.to_string()).collect()
}

#[test]
fn move_up_decrements() {
    let l = list(&["a", "b", "c"]);
    let mut cursor: usize = 2;
    list_up(&l, &mut cursor);
    assert_eq!(cursor, 1);
}

#[test]
fn move_up_at_zero_is_no_op() {
    let l = list(&["a", "b"]);
    let mut cursor: usize = 0;
    list_up(&l, &mut cursor);
    assert_eq!(cursor, 0);
}

#[test]
fn move_down_increments() {
    let l = list(&["a", "b", "c"]);
    let mut cursor: usize = 0;
    list_down(&l, &mut cursor);
    assert_eq!(cursor, 1);
}

#[test]
fn move_down_at_last_is_no_op() {
    let l = list(&["a", "b", "c"]);
    let mut cursor: usize = 2;
    list_down(&l, &mut cursor);
    assert_eq!(cursor, 2);
}

#[test]
fn moves_are_no_ops_on_empty_list() {
    let l: Vec<String> = Vec::new();
    let mut cursor: usize = 5;
    list_up(&l, &mut cursor);
    assert_eq!(cursor, 5);
    list_down(&l, &mut cursor);
    assert_eq!(cursor, 5);
}

#[test]
fn down_then_up_returns_to_start() {
    let l = list(&["a", "b", "c"]);
    let mut cursor: usize = 1;
    list_down(&l, &mut cursor);
    list_up(&l, &mut cursor);
    assert_eq!(cursor, 1);
}

#[test]
fn down_then_up_from_last_moves_up() {
    let l = list(&["a", "b", "c"]);
    let mut cursor: usize = 2;
    list_down(&l, &mut cursor);
    assert_eq!(cursor, 2);
    list_up(&l, &mut cursor);
    assert_eq!(cursor, 1);
}

#[test]
fn transfer_moves_item_to_end_of_destination() {
    let mut dst = list(&["z"]);
    let mut src = list(&["a", "b", "c"]);
    let mut cursor: usize = 1;
    list_transfer(&mut dst, &mut src, &mut cursor);
    assert_eq!(src, list(&["a", "c"]));
    assert_eq!(dst, list(&["z", "b"]));
    assert_eq!(cursor, 1);
}

#[test]
fn transfer_emptying_the_source_leaves_cursor_zero() {
    let mut dst: Vec<String> = Vec::new();
    let mut src = list(&["x"]);
    let mut cursor: usize = 0;
    list_transfer(&mut dst, &mut src, &mut cursor);
    assert_eq!(src, list(&[]));
    assert_eq!(dst, list(&["x"]));
    assert_eq!(cursor, 0);
}

#[test]
fn transfer_of_last_item_clamps_cursor() {
    let mut dst: Vec<String> = Vec::new();
    let mut src = list(&["a", "b"]);
    let mut cursor: usize = 1;
    list_transfer(&mut dst, &mut src, &mut cursor);
    assert_eq!(src, list(&["a"]));
    assert_eq!(dst, list(&["b"]));
    assert_eq!(cursor, 0);
}

#[test]
fn transfer_within_bounds_keeps_cursor() {
    let mut dst: Vec<String> = Vec::new();
    let mut src = list(&["a", "b", "c"]);
    let mut cursor: usize = 0;
    list_transfer(&mut dst, &mut src, &mut cursor);
    assert_eq!(src, list(&["b", "c"]));
    assert_eq!(dst, list(&["a"]));
    assert_eq!(cursor, 0);
}

#[test]
fn transfer_on_empty_source_is_no_op() {
    let mut dst = list(&["z"]);
    let mut src: Vec<String> = Vec::new();
    let mut cursor: usize = 0;
    list_transfer(&mut dst, &mut src, &mut cursor);
    assert_eq!(src, list(&[]));
    assert_eq!(dst, list(&["z"]));
    assert_eq!(cursor, 0);
}
