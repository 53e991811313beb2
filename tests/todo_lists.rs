use rust_todo_cli::codec::{load_state, parse_item, save_state};
use rust_todo_cli::list::{list_down, list_transfer, list_up};
use rust_todo_cli::Status;

fn strings(items: &[&str]) -> Vec<String> {
    items.iter().map(|s| s.to_string()).collect()
}

#[test]
fn toggle_flips_the_tab() {
    assert_eq!(Status::Todo.toggle(), Status::Done);
    assert_eq!(Status::Done.toggle(), Status::Todo);
    assert_eq!(Status::Todo.toggle().toggle(), Status::Todo);
}

#[test]
fn parse_item_reads_both_prefixes() {
    assert_eq!(parse_item("TODO: Buy bread"), Some((Status::Todo, "Buy bread".to_string())));
    assert_eq!(parse_item("DONE: Make tea"), Some((Status::Done, "Make tea".to_string())));
}

#[test]
fn parse_item_keeps_the_rest_of_the_line_unchanged() {
    assert_eq!(parse_item("TODO: "), Some((Status::Todo, String::new())));
    assert_eq!(parse_item("DONE:  two  spaces "), Some((Status::Done, " two  spaces ".to_string())));
    assert_eq!(parse_item("TODO: DONE: x"), Some((Status::Todo, "DONE: x".to_string())));
    assert_eq!(parse_item("TODO: caf\u{e9} \u{2713}"), Some((Status::Todo, "caf\u{e9} \u{2713}".to_string())));
}

#[test]
fn parse_item_rejects_other_lines() {
    assert_eq!(parse_item(""), None);
    assert_eq!(parse_item("TODO:x"), None);
    assert_eq!(parse_item("todo: lower case"), None);
    assert_eq!(parse_item(" TODO: leading space"), None);
    assert_eq!(parse_item("DONE"), None);
}

#[test]
fn load_state_scenario() {
    let lines = strings(&["TODO: Buy bread", "TODO: Write app", "DONE: Make tea"]);
    let mut todos = Vec::new();
    let mut dones = Vec::new();
    assert_eq!(load_state(&mut todos, &mut dones, &lines), Ok(()));
    assert_eq!(todos, strings(&["Buy bread", "Write app"]));
    assert_eq!(dones, strings(&["Make tea"]));
}

#[test]
fn load_state_keeps_file_order_across_interleaved_lines() {
    let lines = strings(&["DONE: a", "TODO: b", "DONE: c", "TODO: d"]);
    let mut todos = Vec::new();
    let mut dones = Vec::new();
    assert_eq!(load_state(&mut todos, &mut dones, &lines), Ok(()));
    assert_eq!(todos, strings(&["b", "d"]));
    assert_eq!(dones, strings(&["a", "c"]));
}

#[test]
fn load_state_of_no_lines_is_empty() {
    let mut todos = Vec::new();
    let mut dones = Vec::new();
    assert_eq!(load_state(&mut todos, &mut dones, &Vec::new()), Ok(()));
    assert!(todos.is_empty());
    assert!(dones.is_empty());
}

#[test]
fn load_state_reports_the_first_bad_line_from_one() {
    let lines = strings(&["TODO: fine", "garbage", "also bad"]);
    let mut todos = Vec::new();
    let mut dones = Vec::new();
    assert_eq!(load_state(&mut todos, &mut dones, &lines), Err(2));
    assert_eq!(todos, strings(&["fine"]));
    assert!(dones.is_empty());

    let mut todos = Vec::new();
    let mut dones = Vec::new();
    assert_eq!(load_state(&mut todos, &mut dones, &strings(&[""])), Err(1));
}

#[test]
fn save_state_writes_todos_then_dones() {
    let todos = strings(&["Write app", "x"]);
    let dones = strings(&["Make tea", "Buy bread"]);
    assert_eq!(
        save_state(&todos, &dones),
        strings(&["TODO: Write app", "TODO: x", "DONE: Make tea", "DONE: Buy bread"])
    );
    assert!(save_state(&Vec::new(), &Vec::new()).is_empty());
}

#[test]
fn save_then_load_gives_the_lists_back() {
    let todos = strings(&["", "TODO: nested", "with  spaces "]);
    let dones = strings(&["DONE: odd", "z"]);
    let lines = save_state(&todos, &dones);
    let mut t = Vec::new();
    let mut d = Vec::new();
    assert_eq!(load_state(&mut t, &mut d, &lines), Ok(()));
    assert_eq!(t, todos);
    assert_eq!(d, dones);
}

#[test]
fn list_up_stops_at_the_top() {
    let mut cur: usize = 2;
    list_up(&mut cur);
    assert_eq!(cur, 1);
    list_up(&mut cur);
    assert_eq!(cur, 0);
    list_up(&mut cur);
    assert_eq!(cur, 0);
}

#[test]
fn list_down_stops_at_the_last_item() {
    let list = strings(&["a", "b", "c"]);
    let mut cur: usize = 0;
    list_down(&list, &mut cur);
    assert_eq!(cur, 1);
    list_down(&list, &mut cur);
    assert_eq!(cur, 2);
    list_down(&list, &mut cur);
    assert_eq!(cur, 2);

    let empty: Vec<String> = Vec::new();
    let mut cur: usize = 0;
    list_down(&empty, &mut cur);
    assert_eq!(cur, 0);
}

#[test]
fn transfer_moves_the_item_under_the_cursor_to_the_end() {
    let mut dst = strings(&["x"]);
    let mut src = strings(&["a", "b", "c"]);
    let mut cur: usize = 1;
    list_transfer(&mut dst, &mut src, &mut cur);
    assert_eq!(dst, strings(&["x", "b"]));
    assert_eq!(src, strings(&["a", "c"]));
    assert_eq!(cur, 1);
}

#[test]
fn transfer_of_the_last_item_pulls_the_cursor_back() {
    let mut dst = Vec::new();
    let mut src = strings(&["a", "b", "c"]);
    let mut cur: usize = 2;
    list_transfer(&mut dst, &mut src, &mut cur);
    assert_eq!(dst, strings(&["c"]));
    assert_eq!(src, strings(&["a", "b"]));
    assert_eq!(cur, 1);
}

#[test]
fn transfer_of_the_only_item_leaves_an_empty_list_at_zero() {
    let mut dst = strings(&["done"]);
    let mut src = strings(&["only"]);
    let mut cur: usize = 0;
    list_transfer(&mut dst, &mut src, &mut cur);
    assert!(src.is_empty());
    assert_eq!(cur, 0);
    assert_eq!(dst, strings(&["done", "only"]));
}

#[test]
fn transfer_with_the_cursor_off_the_list_changes_nothing() {
    let mut dst = strings(&["d"]);
    let mut src = strings(&["a"]);
    let mut cur: usize = 1;
    list_transfer(&mut dst, &mut src, &mut cur);
    assert_eq!(dst, strings(&["d"]));
    assert_eq!(src, strings(&["a"]));
    assert_eq!(cur, 1);

    let mut empty: Vec<String> = Vec::new();
    let mut cur: usize = 0;
    list_transfer(&mut dst, &mut empty, &mut cur);
    assert_eq!(dst, strings(&["d"]));
    assert_eq!(cur, 0);
}
