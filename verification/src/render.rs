//! Turning rows into lines of text: measure first, then emit each row.

use crate::layout::{cells_view, layout, layout_row, plain_piece, plain_pieces, Cell, CellModel};
use crate::row::{all_fit, lines_view, rows_view, Row, RowModel};
use crate::style::{paint, Style};
use crate::text::pad_right;
use crate::widths::{measure, measured, ColumnWidths, WidthsModel};
use vstd::prelude::*;
use vstd::string::*;

verus! {

/// What stands between two cells of a line: two spaces.
pub open spec fn separator() -> Seq<char> {
    seq![' ', ' ']
}

/// The pieces written one after another, with the separator between each
/// two; nothing comes before the first piece or after the last.
pub open spec fn joined(pieces: Seq<Seq<char>>) -> Seq<char>
    decreases pieces.len(),
{
    if pieces.len() == 0 {
        Seq::empty()
    } else if pieces.len() == 1 {
        pieces[0]
    } else {
        joined(pieces.drop_last()) + separator() + pieces.last()
    }
}

/// The line of a row when no style is applied.
pub open spec fn row_text(row: RowModel, widths: WidthsModel) -> Seq<char> {
    joined(plain_pieces(layout(row, widths)))
}

/// The lines of a table of `rows` with `max_lines` content columns when no
/// style is applied: one per row, in row order, each laid out against the
/// widths measured over all rows.
pub open spec fn rendered(rows: Seq<RowModel>, max_lines: nat) -> Seq<Seq<char>> {
    Seq::new(rows.len(), |r: int| row_text(rows[r], measured(rows, max_lines)))
}

/// `painted` holds one piece per cell, none shorter than the cell's unstyled
/// text. This is all that is known of styled pieces.
pub open spec fn painted_over(painted: Seq<Seq<char>>, cells: Seq<CellModel>) -> bool {
    &&& painted.len() == cells.len()
    &&& forall|k: int| 0 <= k < cells.len() ==> (#[trigger] painted[k]).len() >= plain_piece(cells[k]).len()
}

/// Whether `line` is a line of `row` under `widths`. Without style the line
/// is `row_text`. With style it is the row's cells, each painted, joined in
/// the same way.
pub open spec fn is_line_of(line: Seq<char>, row: RowModel, widths: WidthsModel, plain: bool) -> bool {
    if plain {
        line == row_text(row, widths)
    } else {
        exists|painted: Seq<Seq<char>>| #[trigger]
            painted_over(painted, layout(row, widths)) && line == joined(painted)
    }
}

/// Joins the pieces of one line with two spaces between each two.
pub fn join_cells(pieces: &Vec<String>) -> (line: String)
    ensures
        line@ == joined(lines_view(pieces@)),
{
    let mut line = String::new();
    let mut k: usize = 0;
    proof {
        reveal_strlit("  ");
        assert(lines_view(pieces@).take(0) =~= Seq::empty());
    }
    while k < pieces.len()
        invariant
            k <= pieces@.len(),
            line@ == joined(lines_view(pieces@).take(k as int)),
            "  "@ =~= separator(),
        decreases pieces@.len() - k,
    {
        proof {
            let seen = lines_view(pieces@).take(k as int);
            let next = lines_view(pieces@).take(k + 1);
            assert(next.drop_last() =~= seen);
            assert(next.last() == pieces@[k as int]@);
            assert(seen.len() == 0 ==> joined(seen) + pieces@[k as int]@ =~= pieces@[k as int]@);
        }
        if k > 0 {
            line.append("  ");
        }
        line.append(pieces[k].as_str());
        k = k + 1;
    }
    assert(lines_view(pieces@).take(k as int) =~= lines_view(pieces@));
    line
}

/// The text of each cell as it is written: left-justified in its field, and
/// colored after the palette where the style has one.
fn emit_cells(cells: &Vec<Cell>, style: &Style) -> (pieces: Vec<String>)
    ensures
        style is Plain ==> lines_view(pieces@) == plain_pieces(cells_view(cells@)),
        painted_over(lines_view(pieces@), cells_view(cells@)),
{
    let mut pieces: Vec<String> = Vec::new();
    let mut k: usize = 0;
    while k < cells.len()
        invariant
            k <= cells@.len(),
            pieces@.len() == k,
            forall|j: int|
                0 <= j < k ==> (#[trigger] pieces@[j])@.len() >= plain_piece(cells@[j]@).len(),
            style is Plain ==> forall|j: int|
                0 <= j < k ==> (#[trigger] pieces@[j])@ == plain_piece(cells@[j]@),
        decreases cells@.len() - k,
    {
        let cell = &cells[k];
        let justified = pad_right(cell.text.as_str(), cell.width);
        let piece = match style {
            Style::Plain => justified,
            Style::Styled(palette) => paint(justified.as_str(), palette.color_of(cell.style)),
        };
        pieces.push(piece);
        k = k + 1;
    }
    assert(style is Plain ==> lines_view(pieces@) =~= plain_pieces(cells_view(cells@)));
    pieces
}

/// Renders one row against the given column widths.
pub fn render_row(row: &Row, widths: &ColumnWidths, style: &Style) -> (line: String)
    requires
        row@.fits(widths@.content.len()),
    ensures
        is_line_of(line@, row@, widths@, style is Plain),
{
    let cells = layout_row(row, widths);
    let pieces = emit_cells(&cells, style);
    let line = join_cells(&pieces);
    assert(painted_over(lines_view(pieces@), layout(row@, widths@)));
    line
}

/// Renders each row against the given column widths: one line per row, in
/// row order.
pub fn render_with(rows: &Vec<Row>, widths: &ColumnWidths, style: &Style) -> (lines: Vec<String>)
    requires
        all_fit(rows_view(rows@), widths@.content.len()),
    ensures
        lines@.len() == rows@.len(),
        forall|r: int|
            0 <= r < rows@.len() ==> is_line_of(
                (#[trigger] lines@[r])@,
                rows@[r]@,
                widths@,
                style is Plain,
            ),
{
    let mut lines: Vec<String> = Vec::new();
    let mut r: usize = 0;
    while r < rows.len()
        invariant
            r <= rows@.len(),
            lines@.len() == r,
            all_fit(rows_view(rows@), widths@.content.len()),
            forall|j: int|
                0 <= j < r ==> is_line_of(
                    (#[trigger] lines@[j])@,
                    rows@[j]@,
                    widths@,
                    style is Plain,
                ),
        decreases rows@.len() - r,
    {
        assert(rows_view(rows@)[r as int].fits(widths@.content.len()));
        let line = render_row(&rows[r], widths, style);
        lines.push(line);
        r = r + 1;
    }
    lines
}

/// Renders a table of `rows` with `max_lines` content columns: measures the
/// columns over all rows, then emits one line per row, in row order.
pub fn render(rows: &Vec<Row>, max_lines: usize, style: &Style) -> (lines: Vec<String>)
    requires
        all_fit(rows_view(rows@), max_lines as nat),
    ensures
        lines@.len() == rows@.len(),
        style is Plain ==> lines_view(lines@) == rendered(rows_view(rows@), max_lines as nat),
        forall|r: int|
            0 <= r < rows@.len() ==> is_line_of(
                (#[trigger] lines@[r])@,
                rows@[r]@,
                measured(rows_view(rows@), max_lines as nat),
                style is Plain,
            ),
{
    let widths = measure(rows, max_lines);
    let lines = render_with(rows, &widths, style);
    assert(style is Plain ==> lines_view(lines@) =~= rendered(
        rows_view(rows@),
        max_lines as nat,
    ));
    lines
}

} // verus!
