//! Column widths: the widest name and, for each content column, the widest
//! line that any row has there.

use crate::row::{rows_view, Row, RowModel};
use crate::text::char_count;
use vstd::prelude::*;

verus! {

/// The widths of the name column and of the content columns, one entry per
/// column that a row may have.
#[derive(Clone, Debug, PartialEq, Eq)]
pub struct ColumnWidths {
    pub name_width: usize,
    pub content_widths: Vec<usize>,
}

/// Column widths as plain numbers.
pub struct WidthsModel {
    pub name_width: nat,
    pub content: Seq<nat>,
}

impl View for ColumnWidths {
    type V = WidthsModel;

    open spec fn view(&self) -> WidthsModel {
        WidthsModel {
            name_width: self.name_width as nat,
            content: Seq::new(self.content_widths@.len(), |i: int| self.content_widths@[i] as nat),
        }
    }
}

/// The larger of two numbers.
pub open spec fn larger(a: nat, b: nat) -> nat {
    if a >= b {
        a
    } else {
        b
    }
}

/// The character count of the row's line in column `i`, or 0 where the row
/// has no such line.
pub open spec fn cell_len(row: RowModel, i: int) -> nat {
    if 0 <= i < row.lines.len() {
        row.lines[i].len()
    } else {
        0
    }
}

/// The widest name among `rows`; 0 when there are none.
pub open spec fn name_width(rows: Seq<RowModel>) -> nat
    decreases rows.len(),
{
    if rows.len() == 0 {
        0
    } else {
        larger(name_width(rows.drop_last()), rows.last().name.len())
    }
}

/// The widest line in column `i` among `rows`; 0 when no row has one.
pub open spec fn column_width(rows: Seq<RowModel>, i: int) -> nat
    decreases rows.len(),
{
    if rows.len() == 0 {
        0
    } else {
        larger(column_width(rows.drop_last(), i), cell_len(rows.last(), i))
    }
}

/// The widths before any row was seen: all 0, with `max_lines` columns.
pub open spec fn no_widths(max_lines: nat) -> WidthsModel {
    WidthsModel { name_width: 0, content: Seq::new(max_lines, |i: int| 0nat) }
}

/// The widths after one more row: each width grows to what the row needs and
/// stays otherwise. The number of columns does not change.
pub open spec fn absorbed(widths: WidthsModel, row: RowModel) -> WidthsModel {
    WidthsModel {
        name_width: larger(widths.name_width, row.name.len()),
        content: Seq::new(
            widths.content.len(),
            |i: int| larger(widths.content[i], cell_len(row, i)),
        ),
    }
}

/// The widths of a table of `rows` with `max_lines` content columns.
pub open spec fn measured(rows: Seq<RowModel>, max_lines: nat) -> WidthsModel {
    WidthsModel {
        name_width: name_width(rows),
        content: Seq::new(max_lines, |i: int| column_width(rows, i)),
    }
}

/// Measuring is a fold: the widths of no rows are all 0, and the widths of
/// `rows` with one more row are those of `rows` after absorbing it.
pub proof fn lemma_measured_is_fold(rows: Seq<RowModel>, row: RowModel, max_lines: nat)
    ensures
        measured(Seq::empty(), max_lines) == no_widths(max_lines),
        measured(rows.push(row), max_lines) == absorbed(measured(rows, max_lines), row),
{
    let more = rows.push(row);
    assert(more.drop_last() =~= rows);
    assert(more.last() == row);
    assert(measured(Seq::empty(), max_lines).content =~= no_widths(max_lines).content);
    assert(measured(more, max_lines).content =~= absorbed(
        measured(rows, max_lines),
        row,
    ).content);
}

/// The name width is the greatest name length: no row's name is longer, and
/// where there are rows, one of them has a name of exactly that length.
pub proof fn lemma_name_width_is_max(rows: Seq<RowModel>)
    ensures
        forall|r: int| 0 <= r < rows.len() ==> (#[trigger] rows[r]).name.len() <= name_width(rows),
        rows.len() > 0 ==> exists|r: int|
            0 <= r < rows.len() && (#[trigger] rows[r]).name.len() == name_width(rows),
        rows.len() == 0 ==> name_width(rows) == 0,
    decreases rows.len(),
{
    if rows.len() > 0 {
        let front = rows.drop_last();
        let last = rows.len() - 1;
        lemma_name_width_is_max(front);
        assert forall|r: int| 0 <= r < rows.len() implies (#[trigger] rows[r]).name.len()
            <= name_width(rows) by {
            if r < last {
                assert(rows[r] == front[r]);
            }
        }
        if name_width(rows) == rows[last].name.len() {
        } else {
            let r = choose|r: int|
                0 <= r < front.len() && (#[trigger] front[r]).name.len() == name_width(front);
            assert(rows[r] == front[r]);
        }
    }
}

/// The width of column `i` is the greatest character count that any row has
/// there: no row's line is longer, and where there are rows, one of them
/// has exactly that count (a row without the column counting as 0).
pub proof fn lemma_column_width_is_max(rows: Seq<RowModel>, i: int)
    ensures
        forall|r: int| 0 <= r < rows.len() ==> cell_len(#[trigger] rows[r], i) <= column_width(rows, i),
        rows.len() > 0 ==> exists|r: int|
            0 <= r < rows.len() && cell_len(#[trigger] rows[r], i) == column_width(rows, i),
        rows.len() == 0 ==> column_width(rows, i) == 0,
    decreases rows.len(),
{
    if rows.len() > 0 {
        let front = rows.drop_last();
        let last = rows.len() - 1;
        lemma_column_width_is_max(front, i);
        assert forall|r: int| 0 <= r < rows.len() implies cell_len(#[trigger] rows[r], i)
            <= column_width(rows, i) by {
            if r < last {
                assert(rows[r] == front[r]);
            }
        }
        if column_width(rows, i) == cell_len(rows[last], i) {
        } else {
            let r = choose|r: int|
                0 <= r < front.len() && cell_len(#[trigger] front[r], i) == column_width(front, i);
            assert(rows[r] == front[r]);
        }
    }
}

/// Absorbing a row never narrows a column and never changes their number.
pub proof fn lemma_absorb_widens(widths: WidthsModel, row: RowModel)
    ensures
        absorbed(widths, row).name_width >= widths.name_width,
        absorbed(widths, row).content.len() == widths.content.len(),
        forall|i: int|
            0 <= i < widths.content.len() ==> #[trigger] absorbed(widths, row).content[i]
                >= widths.content[i],
{
}

/// The widths do not depend on the order of the rows: two sequences that
/// hold the same rows, each as often, measure the same.
pub proof fn lemma_measured_order_independent(
    rows1: Seq<RowModel>,
    rows2: Seq<RowModel>,
    max_lines: nat,
)
    requires
        rows1.to_multiset() == rows2.to_multiset(),
    ensures
        measured(rows1, max_lines) == measured(rows2, max_lines),
{
    lemma_name_width_below(rows1, rows2);
    lemma_name_width_below(rows2, rows1);
    assert forall|i: int| 0 <= i < max_lines implies column_width(rows1, i) == column_width(
        rows2,
        i,
    ) by {
        lemma_column_width_below(rows1, rows2, i);
        lemma_column_width_below(rows2, rows1, i);
    }
    assert(measured(rows1, max_lines).content =~= measured(rows2, max_lines).content);
}

proof fn lemma_name_width_below(rows1: Seq<RowModel>, rows2: Seq<RowModel>)
    requires
        rows1.to_multiset() == rows2.to_multiset(),
    ensures
        name_width(rows1) <= name_width(rows2),
{
    lemma_name_width_is_max(rows1);
    lemma_name_width_is_max(rows2);
    if rows1.len() > 0 {
        let r = choose|r: int|
            0 <= r < rows1.len() && (#[trigger] rows1[r]).name.len() == name_width(rows1);
        let q = lemma_same_rows_share(rows1, rows2, r);
        assert(rows2[q].name.len() <= name_width(rows2));
    }
}

proof fn lemma_column_width_below(rows1: Seq<RowModel>, rows2: Seq<RowModel>, i: int)
    requires
        rows1.to_multiset() == rows2.to_multiset(),
    ensures
        column_width(rows1, i) <= column_width(rows2, i),
{
    lemma_column_width_is_max(rows1, i);
    lemma_column_width_is_max(rows2, i);
    if rows1.len() > 0 {
        let r = choose|r: int|
            0 <= r < rows1.len() && cell_len(#[trigger] rows1[r], i) == column_width(rows1, i);
        let q = lemma_same_rows_share(rows1, rows2, r);
        assert(cell_len(rows2[q], i) <= column_width(rows2, i));
    }
}

/// A row of one sequence stands somewhere in any sequence with the same rows.
proof fn lemma_same_rows_share(rows1: Seq<RowModel>, rows2: Seq<RowModel>, r: int) -> (q: int)
    requires
        rows1.to_multiset() == rows2.to_multiset(),
        0 <= r < rows1.len(),
    ensures
        0 <= q < rows2.len(),
        rows2[q] == rows1[r],
{
    vstd::seq_lib::to_multiset_contains(rows1, rows1[r]);
    vstd::seq_lib::to_multiset_contains(rows2, rows1[r]);
    assert(rows1.contains(rows1[r]));
    choose|q: int| 0 <= q < rows2.len() && rows2[q] == rows1[r]
}

impl ColumnWidths {
    /// Widths of 0 for the name and for each of `max_lines` content columns.
    pub fn new(max_lines: usize) -> (widths: ColumnWidths)
        ensures
            widths@ == no_widths(max_lines as nat),
    {
        let mut content_widths: Vec<usize> = Vec::new();
        while content_widths.len() < max_lines
            invariant
                content_widths@.len() <= max_lines,
                forall|i: int| 0 <= i < content_widths@.len() ==> content_widths@[i] == 0,
            decreases max_lines - content_widths@.len(),
        {
            content_widths.push(0);
        }
        let widths = ColumnWidths { name_width: 0, content_widths };
        assert(widths@.content =~= no_widths(max_lines as nat).content);
        widths
    }

    /// Widens the columns to hold `row`. Lines of the row beyond the last
    /// column are not measured.
    pub fn absorb(&mut self, row: &Row)
        ensures
            final(self)@ == absorbed(old(self)@, row@),
    {
        let name_len = char_count(row.name.as_str());
        if name_len > self.name_width {
            self.name_width = name_len;
        }
        let mut i: usize = 0;
        while i < self.content_widths.len() && i < row.content_lines.len()
            invariant
                self.name_width == larger(old(self).name_width as nat, row.name@.len()),
                self.content_widths@.len() == old(self).content_widths@.len(),
                forall|k: int|
                    0 <= k < i ==> self.content_widths@[k] == larger(
                        old(self).content_widths@[k] as nat,
                        cell_len(row@, k),
                    ),
                forall|k: int|
                    i <= k < self.content_widths@.len() ==> self.content_widths@[k] == old(
                        self,
                    ).content_widths@[k],
            decreases self.content_widths@.len() - i,
        {
            let len = char_count(row.content_lines[i].as_str());
            if len > self.content_widths[i] {
                self.content_widths.set(i, len);
            }
            i = i + 1;
        }
        assert(self@.content =~= absorbed(old(self)@, row@).content);
    }
}

/// Measures `rows`: the width of the name column and of each of `max_lines`
/// content columns.
pub fn measure(rows: &Vec<Row>, max_lines: usize) -> (widths: ColumnWidths)
    ensures
        widths@ == measured(rows_view(rows@), max_lines as nat),
{
    let mut widths = ColumnWidths::new(max_lines);
    let mut r: usize = 0;
    proof {
        lemma_measured_is_fold(Seq::empty(), arbitrary(), max_lines as nat);
        assert(rows_view(rows@).take(0) =~= Seq::empty());
    }
    while r < rows.len()
        invariant
            r <= rows@.len(),
            widths@ == measured(rows_view(rows@).take(r as int), max_lines as nat),
        decreases rows@.len() - r,
    {
        proof {
            let seen = rows_view(rows@).take(r as int);
            lemma_measured_is_fold(seen, rows@[r as int]@, max_lines as nat);
            assert(rows_view(rows@).take(r + 1) =~= seen.push(rows@[r as int]@));
        }
        widths.absorb(&rows[r]);
        r = r + 1;
    }
    assert(rows_view(rows@).take(r as int) =~= rows_view(rows@));
    widths
}

} // verus!
