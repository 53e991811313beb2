use rust_todo_cli::codec::{join_lines, load_state, save_state, split_lines};

fn strings(items: &[&str]) -> Vec<String> {
    items.iter().map(|s| s.to_string()).collect()
}

#[test]
fn split_lines_cuts_at_each_newline() {
    assert_eq!(split_lines("a\nb\n"), strings(&["a", "b"]));
    assert_eq!(split_lines("a\n\nb\n"), strings(&["a", "", "b"]));
    assert_eq!(split_lines("\n"), strings(&[""]));
    assert_eq!(split_lines(""), Vec::<String>::new());
}

#[test]
fn split_lines_keeps_a_last_line_without_newline() {
    assert_eq!(split_lines("a\nb"), strings(&["a", "b"]));
    assert_eq!(split_lines("only"), strings(&["only"]));
}

#[test]
fn split_lines_leaves_other_characters_alone() {
    assert_eq!(split_lines("a\r\n \u{e9}\t\n"), strings(&["a\r", " \u{e9}\t"]));
}

#[test]
fn join_lines_ends_each_line_with_a_newline() {
    assert_eq!(join_lines(&strings(&["TODO: a", "DONE: b"])), "TODO: a\nDONE: b\n");
    assert_eq!(join_lines(&strings(&[""])), "\n");
    assert_eq!(join_lines(&Vec::new()), "");
}

#[test]
fn file_text_scenario() {
    let text = "TODO: Buy bread\nTODO: Write app\nDONE: Make tea\n";
    let mut todos = Vec::new();
    let mut dones = Vec::new();
    assert_eq!(load_state(&mut todos, &mut dones, &split_lines(text)), Ok(()));
    assert_eq!(todos, strings(&["Buy bread", "Write app"]));
    assert_eq!(dones, strings(&["Make tea"]));
    assert_eq!(join_lines(&save_state(&todos, &dones)), text);
}

#[test]
fn file_text_round_trip() {
    let todos = strings(&["one", "", "t\u{e9}a \r"]);
    let dones = strings(&["DONE: two", "  "]);
    let text = join_lines(&save_state(&todos, &dones));
    let mut t = Vec::new();
    let mut d = Vec::new();
    assert_eq!(load_state(&mut t, &mut d, &split_lines(&text)), Ok(()));
    assert_eq!(t, todos);
    assert_eq!(d, dones);
}

#[test]
fn blank_line_in_a_file_is_a_format_error() {
    let mut todos = Vec::new();
    let mut dones = Vec::new();
    let lines = split_lines("TODO: a\n\nDONE: b\n");
    assert_eq!(load_state(&mut todos, &mut dones, &lines), Err(2));
}
