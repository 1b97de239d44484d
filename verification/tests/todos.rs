use todos::codec::FormatError;
use todos::commands::{add_todo, cancel_todo, complete_todo, list_lines, parse_command, Command};
use todos::model::{TodoItem, TodoStatus};
use todos::store::{parse_file, render_file};
use todos::text::{parse_index, str_eq, usize_to_string};

fn lines(v: &Vec<String>) -> Vec<&str> {
    v.iter().map(|s| s.as_str()).collect()
}

#[test]
fn encode_each_status() {
    let mut a = TodoItem::new(String::from("buy milk"));
    assert_eq!(a.to_string(), "buy milk\tpending");
    a.status = TodoStatus::Completed;
    assert_eq!(a.to_string(), "buy milk\tcompleted");
    a.status = TodoStatus::Cancelled;
    assert_eq!(a.to_string(), "buy milk\tcancelled");
}

#[test]
fn round_trip_pending() {
    let item = TodoItem::new(String::from("buy milk"));
    let back = TodoItem::from_string(&item.to_string()).unwrap();
    assert_eq!(back.description, "buy milk");
    assert_eq!(back.status, TodoStatus::Pending);
}

#[test]
fn round_trip_completed_and_cancelled() {
    let mut item = TodoItem::new(String::from("call bob"));
    item.status = TodoStatus::Completed;
    let back = TodoItem::from_string(&item.to_string()).unwrap();
    assert_eq!(back.description, "call bob");
    assert_eq!(back.status, TodoStatus::Completed);
    item.status = TodoStatus::Cancelled;
    let back = TodoItem::from_string(&item.to_string()).unwrap();
    assert_eq!(back.status, TodoStatus::Cancelled);
}

#[test]
fn decode_accepts_empty_description() {
    let back = TodoItem::from_string("\tpending").unwrap();
    assert_eq!(back.description, "");
    assert_eq!(back.status, TodoStatus::Pending);
}

#[test]
fn decode_rejects_missing_tab() {
    assert_eq!(
        TodoItem::from_string("no tab here").unwrap_err(),
        FormatError::FieldCount
    );
}

#[test]
fn decode_rejects_extra_tab() {
    assert_eq!(
        TodoItem::from_string("a\tb\tpending").unwrap_err(),
        FormatError::FieldCount
    );
}

#[test]
fn decode_rejects_unknown_token() {
    assert_eq!(
        TodoItem::from_string("a\tdone").unwrap_err(),
        FormatError::BadToken
    );
}

#[test]
fn save_is_idempotent() {
    let mut items = Vec::new();
    add_todo(&mut items, String::from("buy milk"));
    add_todo(&mut items, String::from("call bob"));
    complete_todo(&mut items, 1);
    let first = render_file(&items);
    let second = render_file(&items);
    assert_eq!(first, second);
}

#[test]
fn load_after_save_returns_same_records() {
    let mut items = Vec::new();
    add_todo(&mut items, String::from("buy milk"));
    add_todo(&mut items, String::from("call bob"));
    add_todo(&mut items, String::from("water plants"));
    complete_todo(&mut items, 2);
    cancel_todo(&mut items, 3);
    let text = render_file(&items);
    let loaded = parse_file(&text).unwrap();
    assert_eq!(loaded.len(), items.len());
    for (a, b) in loaded.iter().zip(items.iter()) {
        assert_eq!(a.description, b.description);
        assert_eq!(a.status, b.status);
    }
}

#[test]
fn out_of_range_changes_nothing() {
    let mut items = Vec::new();
    add_todo(&mut items, String::from("buy milk"));
    add_todo(&mut items, String::from("call bob"));
    let before = render_file(&items);
    assert!(!complete_todo(&mut items, 0));
    assert!(!complete_todo(&mut items, 3));
    assert!(!cancel_todo(&mut items, 0));
    assert!(!cancel_todo(&mut items, 3));
    assert_eq!(render_file(&items), before);
}

#[test]
fn in_range_mutates_only_the_addressed_record() {
    let mut items = Vec::new();
    add_todo(&mut items, String::from("buy milk"));
    add_todo(&mut items, String::from("call bob"));
    assert!(cancel_todo(&mut items, 2));
    assert_eq!(items[0].status, TodoStatus::Pending);
    assert_eq!(items[1].status, TodoStatus::Cancelled);
}

#[test]
fn complete_overwrites_any_earlier_status() {
    let mut items = Vec::new();
    add_todo(&mut items, String::from("buy milk"));
    assert!(cancel_todo(&mut items, 1));
    assert!(complete_todo(&mut items, 1));
    assert_eq!(items[0].status, TodoStatus::Completed);
    assert!(complete_todo(&mut items, 1));
    assert_eq!(items[0].status, TodoStatus::Completed);
}

#[test]
fn empty_listing_reports_no_items() {
    let items: Vec<TodoItem> = Vec::new();
    assert_eq!(lines(&list_lines(&items)), vec!["no items"]);
}

#[test]
fn scenario_add_add_complete_list() {
    let mut items = Vec::new();
    add_todo(&mut items, String::from("buy milk"));
    add_todo(&mut items, String::from("call bob"));
    assert!(complete_todo(&mut items, 1));
    assert_eq!(
        lines(&list_lines(&items)),
        vec!["1 √. buy milk", "2 . call bob"]
    );
    assert_eq!(render_file(&items), "buy milk\tcompleted\ncall bob\tpending\n");
}

#[test]
fn scenario_load_cancelled_then_list() {
    let items = parse_file("x\tcancelled\n").unwrap();
    assert_eq!(items.len(), 1);
    assert_eq!(lines(&list_lines(&items)), vec!["1 X. x"]);
}

#[test]
fn parse_file_of_empty_text_is_empty() {
    assert!(parse_file("").unwrap().is_empty());
}

#[test]
fn parse_file_rejects_unterminated_last_line() {
    assert_eq!(parse_file("x\tpending").unwrap_err(), FormatError::Unterminated);
}

#[test]
fn parse_file_rejects_bad_line() {
    assert_eq!(parse_file("bad\n").unwrap_err(), FormatError::FieldCount);
    assert_eq!(parse_file("a\tdone\n").unwrap_err(), FormatError::BadToken);
    assert_eq!(
        parse_file("a\tpending\nb\tdone\n").unwrap_err(),
        FormatError::BadToken
    );
}

#[test]
fn parse_index_reads_decimal_positions() {
    assert_eq!(parse_index("1"), Some(1));
    assert_eq!(parse_index("0"), Some(0));
    assert_eq!(parse_index("42"), Some(42));
    assert_eq!(parse_index("007"), Some(7));
}

#[test]
fn parse_index_rejects_non_numbers() {
    assert_eq!(parse_index(""), None);
    assert_eq!(parse_index("one"), None);
    assert_eq!(parse_index("12a"), None);
    assert_eq!(parse_index(" 1"), None);
    assert_eq!(parse_index("-1"), None);
    assert_eq!(parse_index("184467440737095516160"), None);
}

#[test]
fn positions_render_in_decimal() {
    assert_eq!(usize_to_string(0), "0");
    assert_eq!(usize_to_string(9), "9");
    assert_eq!(usize_to_string(10), "10");
    assert_eq!(usize_to_string(907), "907");
}

#[test]
fn command_words_dispatch() {
    assert_eq!(parse_command("add"), Command::Add);
    assert_eq!(parse_command("cancel"), Command::Cancel);
    assert_eq!(parse_command("complete"), Command::Complete);
    assert_eq!(parse_command("print"), Command::Print);
    assert_eq!(parse_command("quit"), Command::Quit);
    assert_eq!(parse_command("Add"), Command::Unknown);
    assert_eq!(parse_command(""), Command::Unknown);
    assert_eq!(parse_command("remove"), Command::Unknown);
}

#[test]
fn str_eq_compares_text() {
    assert!(str_eq("abc", "abc"));
    assert!(!str_eq("abc", "abd"));
    assert!(!str_eq("abc", "abcd"));
    assert!(str_eq("", ""));
}
