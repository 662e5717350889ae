//! A table under construction: the rows gathered so far and the column
//! widths folded over them as they arrive.

use crate::render::{is_line_of, render_with, rendered};
use crate::row::{all_fit, lines_view, rows_view, LineCapture, Row, RowModel};
use crate::scan::{file_row, shown_name, unreadable_file_message, unreadable_file_text};
use crate::style::Style;
use crate::widths::{lemma_measured_is_fold, measured, ColumnWidths};
use vstd::prelude::*;

verus! {

/// The first `max_lines` of `lines`, or all of them when there are fewer.
pub open spec fn leading(lines: Seq<Seq<char>>, max_lines: nat) -> Seq<Seq<char>> {
    if lines.len() <= max_lines {
        lines
    } else {
        lines.take(max_lines as int)
    }
}

/// The row that a table with a budget of `max_lines` keeps of a file: its
/// name and its leading lines.
pub open spec fn file_model(name: Seq<char>, lines: Seq<Seq<char>>, max_lines: nat) -> RowModel {
    RowModel { name, lines: leading(lines, max_lines) }
}

/// The rows of one directory, with at most `max_lines` content lines each,
/// and the widths of their columns.
pub struct Table {
    max_lines: usize,
    rows: Vec<Row>,
    widths: ColumnWidths,
}

/// A table as plain values: its line budget and its rows, in the order they
/// were added.
pub struct TableModel {
    pub max_lines: nat,
    pub rows: Seq<RowModel>,
}

impl View for Table {
    type V = TableModel;

    closed spec fn view(&self) -> TableModel {
        TableModel { max_lines: self.max_lines as nat, rows: rows_view(self.rows@) }
    }
}

impl Table {
    #[verifier::type_invariant]
    spec fn measured_and_bounded(self) -> bool {
        &&& all_fit(rows_view(self.rows@), self.max_lines as nat)
        &&& self.widths@ == measured(rows_view(self.rows@), self.max_lines as nat)
    }

    /// An empty table whose rows will hold at most `max_lines` content lines.
    pub fn new(max_lines: usize) -> (table: Table)
        ensures
            table@.max_lines == max_lines,
            table@.rows == Seq::<RowModel>::empty(),
    {
        let rows: Vec<Row> = Vec::new();
        let widths = ColumnWidths::new(max_lines);
        proof {
            assert(rows_view(rows@) =~= Seq::<RowModel>::empty());
            lemma_measured_is_fold(Seq::empty(), arbitrary(), max_lines as nat);
        }
        Table { max_lines, rows, widths }
    }

    /// The most content lines a row of this table holds.
    pub fn max_lines(&self) -> (n: usize)
        ensures
            n == self@.max_lines,
    {
        self.max_lines
    }

    /// The number of rows.
    pub fn len(&self) -> (n: usize)
        ensures
            n == self@.rows.len(),
    {
        self.rows.len()
    }

    /// The rows, in the order they were added. Each has at most `max_lines`
    /// content lines.
    pub fn rows(&self) -> (rows: &Vec<Row>)
        ensures
            rows_view(rows@) == self@.rows,
            all_fit(self@.rows, self@.max_lines),
    {
        proof {
            use_type_invariant(self);
        }
        &self.rows
    }

    /// The column widths measured over the rows added so far.
    pub fn widths(&self) -> (widths: &ColumnWidths)
        ensures
            widths@ == measured(self@.rows, self@.max_lines),
    {
        proof {
            use_type_invariant(self);
        }
        &self.widths
    }

    /// A capture for the lines of the next file, with this table's budget.
    pub fn line_capture(&self) -> (capture: LineCapture)
        ensures
            capture.limit() == self@.max_lines,
            capture.kept() == Seq::<Seq<char>>::empty(),
    {
        LineCapture::new(self.max_lines)
    }

    /// Adds a row after those already there. Content lines beyond the
    /// table's budget are dropped.
    pub fn add_row(self, row: Row) -> (next: Table)
        ensures
            next@.max_lines == self@.max_lines,
            next@.rows == self@.rows.push(file_model(row@.name, row@.lines, self@.max_lines)),
    {
        proof {
            use_type_invariant(&self);
        }
        let max_lines = self.max_lines;
        let mut rows = self.rows;
        let mut widths = self.widths;
        let mut kept = row;
        kept.content_lines.truncate(max_lines);
        assert(kept@.lines =~= leading(row@.lines, max_lines as nat));
        widths.absorb(&kept);
        proof {
            lemma_measured_is_fold(rows_view(rows@), kept@, max_lines as nat);
            assert(rows_view(rows@.push(kept)) =~= rows_view(rows@).push(kept@));
        }
        rows.push(kept);
        Table { max_lines, rows, widths }
    }

    /// Takes in the outcome of reading one regular file. A file that was
    /// read adds its row and nothing is to be reported. A file that could not
    /// be read (`read` is `None`) adds no row, and the diagnostic to report
    /// for it is handed back; the rows already there are untouched.
    pub fn record_file(
        self,
        path: &str,
        name: Option<String>,
        read: Option<LineCapture>,
    ) -> (outcome: (Table, Option<String>))
        ensures
            outcome.0@.max_lines == self@.max_lines,
            read is Some ==> outcome.1 is None,
            read is Some ==> outcome.0@.rows == self@.rows.push(
                file_model(shown_name(name), read->0.kept(), self@.max_lines),
            ),
            read is None ==> outcome.0@ == self@,
            read is None ==> outcome.1 is Some,
            read is None ==> outcome.1->0@ == unreadable_file_text(path@),
    {
        match read {
            Some(capture) => (self.add_row(file_row(name, capture)), None),
            None => (self, Some(unreadable_file_message(path))),
        }
    }

    /// Renders the table: one line per row, in the order the rows were added,
    /// laid out against the widths of all rows.
    pub fn render(&self, style: &Style) -> (lines: Vec<String>)
        ensures
            lines@.len() == self@.rows.len(),
            style is Plain ==> lines_view(lines@) == rendered(self@.rows, self@.max_lines),
            forall|r: int|
                0 <= r < self@.rows.len() ==> is_line_of(
                    (#[trigger] lines@[r])@,
                    self@.rows[r],
                    measured(self@.rows, self@.max_lines),
                    style is Plain,
                ),
    {
        proof {
            use_type_invariant(self);
        }
        let lines = render_with(&self.rows, &self.widths, style);
        assert(style is Plain ==> lines_view(lines@) =~= rendered(self@.rows, self@.max_lines));
        lines
    }
}

} // verus!
