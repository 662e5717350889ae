use dirtable::row::Row;
use dirtable::widths::{measure, ColumnWidths};

fn row(name: &str, lines: &[&str]) -> Row {
    Row::new(name.to_string(), lines.iter().map(|l| l.to_string()).collect())
}

#[test]
fn new_widths_are_all_zero() {
    let widths = ColumnWidths::new(10);
    assert_eq!(widths.name_width, 0);
    assert_eq!(widths.content_widths, vec![0usize; 10]);
}

#[test]
fn new_widths_may_have_no_columns() {
    let widths = ColumnWidths::new(0);
    assert_eq!(widths.content_widths, Vec::<usize>::new());
}

#[test]
fn absorb_widens_what_the_row_needs() {
    let mut widths = ColumnWidths::new(3);
    widths.absorb(&row("bb.txt", &["hello", "x"]));
    assert_eq!(widths.name_width, 6);
    assert_eq!(widths.content_widths, vec![5, 1, 0]);
}

#[test]
fn absorb_never_narrows() {
    let mut widths = ColumnWidths::new(3);
    widths.absorb(&row("bb.txt", &["hello", "x"]));
    widths.absorb(&row("a", &["hi", "longer", "z"]));
    assert_eq!(widths.name_width, 6);
    assert_eq!(widths.content_widths, vec![5, 6, 1]);
}

#[test]
fn absorb_leaves_absent_columns_unchanged() {
    let mut widths = ColumnWidths::new(2);
    widths.absorb(&row("a", &["one", "three"]));
    widths.absorb(&row("b", &["x"]));
    assert_eq!(widths.content_widths, vec![3, 5]);
}

#[test]
fn absorb_ignores_lines_beyond_the_last_column() {
    let mut widths = ColumnWidths::new(1);
    widths.absorb(&row("a", &["one", "a much longer second line"]));
    assert_eq!(widths.content_widths, vec![3]);
}

#[test]
fn absorb_measures_characters() {
    let mut widths = ColumnWidths::new(1);
    widths.absorb(&row("\u{e9}\u{e9}", &["\u{65e5}\u{672c}\u{8a9e}"]));
    assert_eq!(widths.name_width, 2);
    assert_eq!(widths.content_widths, vec![3]);
}

#[test]
fn name_only_file_with_the_longest_name() {
    let rows = vec![row("short", &["content"]), row("the-longest-name.txt", &[])];
    let widths = measure(&rows, 10);
    assert_eq!(widths.name_width, 20);
    let mut expected = vec![0usize; 10];
    expected[0] = 7;
    assert_eq!(widths.content_widths, expected);
}

#[test]
fn measure_of_only_a_contentless_row() {
    let widths = measure(&vec![row("lonely", &[])], 10);
    assert_eq!(widths.name_width, 6);
    assert_eq!(widths.content_widths, vec![0usize; 10]);
}

#[test]
fn measure_of_no_rows_is_all_zero() {
    assert_eq!(measure(&Vec::new(), 4), ColumnWidths::new(4));
}

#[test]
fn measure_is_the_fold_of_absorb() {
    let rows = vec![row("a", &["1", "22"]), row("bbb", &["333"]), row("cc", &["", "4444", "5"])];
    let mut folded = ColumnWidths::new(3);
    for r in &rows {
        folded.absorb(r);
    }
    assert_eq!(measure(&rows, 3), folded);
    assert_eq!(folded.name_width, 3);
    assert_eq!(folded.content_widths, vec![3, 4, 1]);
}

#[test]
fn measure_does_not_depend_on_row_order() {
    let a = row("a", &["1", "22"]);
    let b = row("bbb", &["333"]);
    let c = row("cc", &["", "4444", "5"]);
    let one = measure(&vec![a.clone(), b.clone(), c.clone()], 3);
    let other = measure(&vec![c, a, b], 3);
    assert_eq!(one, other);
}
