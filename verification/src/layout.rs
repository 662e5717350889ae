//! The cells of one row: which are emitted, with what text, width and style.

use crate::row::{Row, RowModel};
use crate::style::{column_style, style_of_column, StyleId};
use crate::text::{char_count, padded, trim_end, trimmed};
use crate::widths::{ColumnWidths, WidthsModel};
use vstd::prelude::*;
use vstd::string::*;

verus! {

/// One cell to emit: its text, the width of the field it is left-justified
/// in, and its style.
#[derive(Clone, Debug, PartialEq, Eq)]
pub struct Cell {
    pub text: String,
    pub width: usize,
    pub style: StyleId,
}

/// A cell as plain values.
pub struct CellModel {
    pub text: Seq<char>,
    pub width: nat,
    pub style: StyleId,
}

impl View for Cell {
    type V = CellModel;

    open spec fn view(&self) -> CellModel {
        CellModel { text: self.text@, width: self.width as nat, style: self.style }
    }
}

/// The models of a sequence of cells.
pub open spec fn cells_view(cells: Seq<Cell>) -> Seq<CellModel> {
    Seq::new(cells.len(), |k: int| cells[k]@)
}

/// Whether column `i` is the last one that `row` has.
pub open spec fn is_last_column(row: RowModel, i: int) -> bool {
    i + 1 == row.lines.len()
}

/// The field width of the row's cell in column `i`: the column's width,
/// except in the row's last column, which is not padded.
pub open spec fn effective_width(row: RowModel, widths: WidthsModel, i: int) -> nat {
    if is_last_column(row, i) {
        0
    } else {
        widths.content[i]
    }
}

/// Whether the row's cell in column `i` is emitted: it is left out only when
/// its line is empty and its field has no width.
pub open spec fn cell_emitted(row: RowModel, widths: WidthsModel, i: int) -> bool {
    row.lines[i].len() > 0 || effective_width(row, widths, i) > 0
}

/// The row's cell in column `i`. In the row's last column the line loses its
/// trailing whitespace.
pub open spec fn content_cell(row: RowModel, widths: WidthsModel, i: int) -> CellModel {
    CellModel {
        text: if is_last_column(row, i) {
            trimmed(row.lines[i])
        } else {
            row.lines[i]
        },
        width: effective_width(row, widths, i),
        style: style_of_column(i),
    }
}

/// The cell that holds the row's name.
pub open spec fn name_cell(row: RowModel, widths: WidthsModel) -> CellModel {
    CellModel { text: row.name, width: widths.name_width, style: StyleId::Name }
}

/// The emitted cells of the row's first `n` content columns, in column order.
pub open spec fn content_cells(row: RowModel, widths: WidthsModel, n: int) -> Seq<CellModel>
    decreases n,
{
    if n <= 0 {
        Seq::empty()
    } else if cell_emitted(row, widths, n - 1) {
        content_cells(row, widths, n - 1).push(content_cell(row, widths, n - 1))
    } else {
        content_cells(row, widths, n - 1)
    }
}

/// All cells of the row: the name cell, then the emitted content cells.
pub open spec fn layout(row: RowModel, widths: WidthsModel) -> Seq<CellModel> {
    seq![name_cell(row, widths)] + content_cells(row, widths, row.lines.len() as int)
}

/// The text of a cell when no style is applied: left-justified in its field.
pub open spec fn plain_piece(cell: CellModel) -> Seq<char> {
    padded(cell.text, cell.width)
}

/// The unstyled texts of a sequence of cells.
pub open spec fn plain_pieces(cells: Seq<CellModel>) -> Seq<Seq<char>> {
    Seq::new(cells.len(), |k: int| plain_piece(cells[k]))
}

/// Lays out one row against the given column widths.
pub fn layout_row(row: &Row, widths: &ColumnWidths) -> (cells: Vec<Cell>)
    requires
        row@.fits(widths@.content.len()),
    ensures
        cells_view(cells@) == layout(row@, widths@),
{
    let mut cells: Vec<Cell> = Vec::new();
    cells.push(Cell { text: row.name.clone(), width: widths.name_width, style: StyleId::Name });
    let n = row.content_lines.len();
    let mut i: usize = 0;
    assert(cells_view(cells@) =~= seq![name_cell(row@, widths@)] + content_cells(
        row@,
        widths@,
        0,
    ));
    while i < n
        invariant
            i <= n,
            n == row.content_lines@.len(),
            n <= widths.content_widths@.len(),
            cells_view(cells@) == seq![name_cell(row@, widths@)] + content_cells(
                row@,
                widths@,
                i as int,
            ),
        decreases n - i,
    {
        let line = row.content_lines[i].as_str();
        let last = i + 1 == n;
        let width = if last {
            0
        } else {
            widths.content_widths[i]
        };
        let ghost before = cells_view(cells@);
        if char_count(line) > 0 || width > 0 {
            let text = if last {
                trim_end(line)
            } else {
                line
            };
            cells.push(Cell { text: String::from_str(text), width, style: column_style(i) });
            assert(cells_view(cells@) =~= before.push(content_cell(row@, widths@, i as int)));
        }
        i = i + 1;
        assert(cells_view(cells@) =~= seq![name_cell(row@, widths@)] + content_cells(
            row@,
            widths@,
            i as int,
        ));
    }
    cells
}

} // verus!
