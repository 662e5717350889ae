use dirtable::layout::{layout_row, Cell};
use dirtable::row::Row;
use dirtable::style::{column_style, StyleId};
use dirtable::widths::ColumnWidths;

fn row(name: &str, lines: &[&str]) -> Row {
    Row::new(name.to_string(), lines.iter().map(|l| l.to_string()).collect())
}

fn widths(name_width: usize, content_widths: &[usize]) -> ColumnWidths {
    ColumnWidths { name_width, content_widths: content_widths.to_vec() }
}

fn cell(text: &str, width: usize, style: StyleId) -> Cell {
    Cell { text: text.to_string(), width, style }
}

#[test]
fn column_styles_alternate() {
    assert_eq!(column_style(0), StyleId::Even);
    assert_eq!(column_style(1), StyleId::Odd);
    assert_eq!(column_style(2), StyleId::Even);
    assert_eq!(column_style(9), StyleId::Odd);
}

#[test]
fn layout_starts_with_the_name_cell() {
    let cells = layout_row(&row("a.txt", &[]), &widths(6, &[0, 0]));
    assert_eq!(cells, vec![cell("a.txt", 6, StyleId::Name)]);
}

#[test]
fn layout_pads_all_but_the_last_column() {
    let cells = layout_row(&row("n", &["a", "bb", "ccc"]), &widths(4, &[5, 6, 7]));
    assert_eq!(
        cells,
        vec![
            cell("n", 4, StyleId::Name),
            cell("a", 5, StyleId::Even),
            cell("bb", 6, StyleId::Odd),
            cell("ccc", 0, StyleId::Even),
        ]
    );
}

#[test]
fn layout_trims_only_the_last_column() {
    let cells = layout_row(&row("n", &["a  ", "b  "]), &widths(1, &[4, 4]));
    assert_eq!(
        cells,
        vec![
            cell("n", 1, StyleId::Name),
            cell("a  ", 4, StyleId::Even),
            cell("b", 0, StyleId::Odd),
        ]
    );
}

#[test]
fn layout_skips_an_empty_last_cell() {
    let cells = layout_row(&row("n", &["a", ""]), &widths(1, &[3, 3]));
    assert_eq!(cells, vec![cell("n", 1, StyleId::Name), cell("a", 3, StyleId::Even)]);
}

#[test]
fn layout_keeps_an_empty_cell_in_a_wide_column() {
    let cells = layout_row(&row("n", &["", "b"]), &widths(1, &[3, 3]));
    assert_eq!(
        cells,
        vec![
            cell("n", 1, StyleId::Name),
            cell("", 3, StyleId::Even),
            cell("b", 0, StyleId::Odd),
        ]
    );
}

#[test]
fn layout_skips_an_empty_cell_in_an_empty_column() {
    let cells = layout_row(&row("n", &["", "b"]), &widths(1, &[0, 3]));
    assert_eq!(cells, vec![cell("n", 1, StyleId::Name), cell("b", 0, StyleId::Odd)]);
}

#[test]
fn layout_emits_a_blank_last_line_as_an_empty_cell() {
    // The line is not empty, so the cell is emitted; trimmed, nothing is left.
    let cells = layout_row(&row("n", &["   "]), &widths(1, &[3]));
    assert_eq!(cells, vec![cell("n", 1, StyleId::Name), cell("", 0, StyleId::Even)]);
}
