use dirtable::row::{LineCapture, Row};
use dirtable::scan::{entry_action, exit_code, file_row, not_a_directory_message, EntryAction};
use dirtable::style::Style;
use dirtable::table::Table;
use dirtable::widths::measure;

fn strings(items: &[&str]) -> Vec<String> {
    items.iter().map(|s| s.to_string()).collect()
}

fn row(name: &str, lines: &[&str]) -> Row {
    Row::new(name.to_string(), strings(lines))
}

#[test]
fn new_table_is_empty() {
    let table = Table::new(10);
    assert_eq!(table.max_lines(), 10);
    assert_eq!(table.len(), 0);
    assert!(table.rows().is_empty());
    assert_eq!(table.render(&Style::Plain), Vec::<String>::new());
}

#[test]
fn table_hands_out_captures_with_its_budget() {
    let table = Table::new(1);
    let capture = table.line_capture();
    assert!(capture.wants_more());
    let capture = capture.accept(Some("only".to_string()));
    assert!(!capture.wants_more());
}

#[test]
fn table_keeps_rows_in_order() {
    let table = Table::new(10)
        .add_row(row("b", &["2"]))
        .add_row(row("a", &["1"]));
    assert_eq!(
        table.rows(),
        &vec![row("b", &["2"]), row("a", &["1"])]
    );
}

#[test]
fn table_drops_lines_beyond_its_budget() {
    let table = Table::new(2).add_row(row("f", &["1", "2", "3", "4"]));
    assert_eq!(table.rows()[0].content_lines, strings(&["1", "2"]));
}

#[test]
fn table_shows_a_placeholder_for_an_undecodable_name() {
    let capture = LineCapture::new(2).accept(Some("x".to_string()));
    let table = Table::new(2).add_row(file_row(None, capture));
    assert_eq!(table.render(&Style::Plain), strings(&["-/-  x"]));
}

#[test]
fn table_widths_follow_its_rows() {
    let table = Table::new(3)
        .add_row(row("a.txt", &["hi"]))
        .add_row(row("bb.txt", &["hello", "x"]));
    assert_eq!(table.widths(), &measure(table.rows(), 3));
    assert_eq!(table.widths().name_width, 6);
    assert_eq!(table.widths().content_widths, vec![5, 1, 0]);
}

#[test]
fn table_renders_two_files_in_single_line_mode() {
    let table = Table::new(1)
        .add_row(row("a.txt", &["hi"]))
        .add_row(row("bb.txt", &["hello"]));
    assert_eq!(table.render(&Style::Plain), strings(&["a.txt   hi", "bb.txt  hello"]));
}

#[test]
fn unreadable_file_beside_readable_ones() {
    // Three regular files; the second cannot be opened.
    let entries: Vec<(&str, Option<Vec<String>>)> = vec![
        ("a.txt", Some(strings(&["hi"]))),
        ("locked", None),
        ("bb.txt", Some(strings(&["hello"]))),
    ];
    let mut table = Table::new(10);
    let mut diagnostics: Vec<String> = Vec::new();
    for (name, content) in entries {
        assert_eq!(entry_action(Some(true)), EntryAction::Read);
        let read = content.map(|lines| {
            let mut capture = table.line_capture();
            for line in lines {
                capture = capture.accept(Some(line));
            }
            capture
        });
        let (next, diagnostic) = table.record_file(name, Some(name.to_string()), read);
        table = next;
        diagnostics.extend(diagnostic);
    }
    assert_eq!(diagnostics, strings(&["Couldn't read file locked"]));
    assert_eq!(table.len(), 2);
    assert_eq!(table.render(&Style::Plain), strings(&["a.txt   hi", "bb.txt  hello"]));
    assert_eq!(exit_code(true), 0);
}

#[test]
fn target_that_is_not_a_directory() {
    let listed = false;
    let table = Table::new(10);
    let diagnostics = vec![not_a_directory_message("notes.txt")];
    assert_eq!(table.render(&Style::Plain).len(), 0);
    assert_eq!(diagnostics, strings(&["The path: notes.txt is not a directory"]));
    assert_ne!(exit_code(listed), 0);
}

#[test]
fn record_file_adds_the_row_of_a_file_that_was_read() {
    let capture = LineCapture::new(10).accept(Some("hi".to_string())).accept(None);
    let (table, diagnostic) = Table::new(10).record_file("./a", Some("a".to_string()), Some(capture));
    assert_eq!(diagnostic, None);
    assert_eq!(table.rows(), &vec![row("a", &["hi", ""])]);
}

#[test]
fn record_file_reports_a_file_that_could_not_be_read() {
    let table = Table::new(10).add_row(row("a", &["hi"]));
    let (table, diagnostic) = table.record_file("\"./b\"", Some("b".to_string()), None);
    assert_eq!(diagnostic, Some("Couldn't read file \"./b\"".to_string()));
    assert_eq!(table.rows(), &vec![row("a", &["hi"])]);
}

#[test]
fn record_file_cuts_a_capture_with_a_larger_budget() {
    let capture = LineCapture::new(5)
        .accept(Some("1".to_string()))
        .accept(Some("2".to_string()))
        .accept(Some("3".to_string()));
    let (table, _) = Table::new(2).record_file("f", None, Some(capture));
    assert_eq!(table.rows(), &vec![row("-/-", &["1", "2"])]);
}
