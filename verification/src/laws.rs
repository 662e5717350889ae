//! What holds of every table, stated over the models that the contracts of
//! the other modules use.

use crate::layout::{content_cell, is_last_column, layout, name_cell, plain_piece, plain_pieces};
use crate::render::{is_line_of, joined, painted_over, rendered, row_text};
use crate::row::{captured, read_text, RowModel};
use crate::text::{padded, trimmed};
use crate::widths::{
    absorbed, cell_len, column_width, larger, lemma_column_width_is_max,
    lemma_measured_order_independent, lemma_name_width_is_max, measured, name_width, WidthsModel,
};
use vstd::prelude::*;

verus! {

/// A table has exactly one line per row.
pub proof fn lemma_one_line_per_row(rows: Seq<RowModel>, max_lines: nat)
    ensures
        rendered(rows, max_lines).len() == rows.len(),
{
}

/// In a table measured over its own rows, every name cell is exactly as
/// wide as the longest name, so the first content column starts at the same
/// place in every line.
pub proof fn lemma_name_cells_fill_their_column(rows: Seq<RowModel>, max_lines: nat, r: int)
    requires
        0 <= r < rows.len(),
    ensures
        name_cell(rows[r], measured(rows, max_lines)).width == name_width(rows),
        plain_piece(name_cell(rows[r], measured(rows, max_lines))).len() == name_width(rows),
        forall|q: int| 0 <= q < rows.len() ==> (#[trigger] rows[q]).name.len() <= name_width(rows),
        exists|q: int| 0 <= q < rows.len() && (#[trigger] rows[q]).name.len() == name_width(rows),
{
    lemma_name_width_is_max(rows);
    assert(rows[r].name.len() <= name_width(rows));
}

/// In a table measured over its own rows, a cell that is not in its row's
/// last column is exactly as wide as its column, and the column is as wide
/// as the longest line that any row has there.
pub proof fn lemma_cells_fill_their_column(rows: Seq<RowModel>, max_lines: nat, r: int, i: int)
    requires
        0 <= r < rows.len(),
        rows[r].fits(max_lines),
        0 <= i,
        i + 1 < rows[r].lines.len(),
    ensures
        content_cell(rows[r], measured(rows, max_lines), i).width == column_width(rows, i),
        plain_piece(content_cell(rows[r], measured(rows, max_lines), i)).len() == column_width(
            rows,
            i,
        ),
        forall|q: int| 0 <= q < rows.len() ==> cell_len(#[trigger] rows[q], i) <= column_width(rows, i),
        exists|q: int| 0 <= q < rows.len() && cell_len(#[trigger] rows[q], i) == column_width(rows, i),
{
    lemma_column_width_is_max(rows, i);
    assert(cell_len(rows[r], i) <= column_width(rows, i));
}

/// The cell in a row's last column is not padded: it is the line without
/// its trailing whitespace, whatever the column's width.
pub proof fn lemma_last_cell_is_trimmed(row: RowModel, widths: WidthsModel, i: int)
    requires
        0 <= i,
        is_last_column(row, i),
    ensures
        content_cell(row, widths, i).width == 0,
        plain_piece(content_cell(row, widths, i)) == trimmed(row.lines[i]),
{
}

/// A row without content lines is rendered as its name cell alone, and
/// measuring it moves no content column; only the name column may widen.
pub proof fn lemma_contentless_row(row: RowModel, widths: WidthsModel)
    requires
        row.lines.len() == 0,
    ensures
        layout(row, widths) == seq![name_cell(row, widths)],
        row_text(row, widths) == padded(row.name, widths.name_width),
        absorbed(widths, row).content == widths.content,
        absorbed(widths, row).name_width == larger(widths.name_width, row.name.len()),
{
    assert(layout(row, widths) =~= seq![name_cell(row, widths)]);
    assert(plain_pieces(layout(row, widths)) =~= seq![padded(row.name, widths.name_width)]);
    assert(absorbed(widths, row).content =~= widths.content);
}

/// Of a file's lines only the leading `max_lines` are kept, in order, a
/// failed read as an empty line; what the reader yields after them changes
/// nothing. A file without lines gives no lines.
pub proof fn lemma_capture_keeps_leading_lines(reads: Seq<Option<Seq<char>>>, max_lines: nat)
    ensures
        captured(reads, max_lines).len() <= max_lines,
        captured(reads, max_lines).len() <= reads.len(),
        captured(reads, max_lines).len() == max_lines || captured(reads, max_lines).len()
            == reads.len(),
        forall|i: int|
            0 <= i < captured(reads, max_lines).len() ==> #[trigger] captured(reads, max_lines)[i]
                == read_text(reads[i]),
        reads.len() > max_lines ==> captured(reads, max_lines) == captured(
            reads.take(max_lines as int),
            max_lines,
        ),
        reads.len() == 0 ==> captured(reads, max_lines) == Seq::<Seq<char>>::empty(),
{
    if reads.len() > max_lines {
        assert(captured(reads, max_lines) =~= captured(reads.take(max_lines as int), max_lines));
    }
    assert(reads.len() == 0 ==> captured(reads, max_lines) =~= Seq::<Seq<char>>::empty());
}

/// The length of a joined line: the lengths of its pieces, and two more for
/// each piece after the first.
proof fn lemma_joined_len(pieces: Seq<Seq<char>>, longer: Seq<Seq<char>>)
    requires
        pieces.len() == longer.len(),
        forall|k: int| 0 <= k < pieces.len() ==> (#[trigger] pieces[k]).len() <= longer[k].len(),
    ensures
        joined(pieces).len() <= joined(longer).len(),
    decreases pieces.len(),
{
    if pieces.len() > 1 {
        let front = pieces.drop_last();
        let longer_front = longer.drop_last();
        assert forall|k: int| 0 <= k < front.len() implies (#[trigger] front[k]).len()
            <= longer_front[k].len() by {
            assert(front[k] == pieces[k]);
            assert(longer_front[k] == longer[k]);
        }
        lemma_joined_len(front, longer_front);
        assert(pieces.last() == pieces[pieces.len() - 1]);
    } else if pieces.len() == 1 {
        assert(pieces[0].len() <= longer[0].len());
    }
}

/// A styled line is never shorter than the unstyled line of the same row:
/// styling may add to a cell, and takes nothing away.
pub proof fn lemma_styled_line_is_no_shorter(line: Seq<char>, row: RowModel, widths: WidthsModel)
    requires
        is_line_of(line, row, widths, false),
    ensures
        line.len() >= row_text(row, widths).len(),
{
    let cells = layout(row, widths);
    let painted = choose|painted: Seq<Seq<char>>| #[trigger]
        painted_over(painted, cells) && line == joined(painted);
    lemma_joined_len(plain_pieces(cells), painted);
}

/// The output does not depend on the order of the rows, except for the order
/// of its lines: two tables that hold the same rows, each as often, give
/// every row the same line wherever it stands, and so the same lines, each
/// as often.
pub proof fn lemma_rendered_order_independent(
    rows1: Seq<RowModel>,
    rows2: Seq<RowModel>,
    max_lines: nat,
)
    requires
        rows1.to_multiset() == rows2.to_multiset(),
    ensures
        rendered(rows1, max_lines).len() == rendered(rows2, max_lines).len(),
        forall|i: int, j: int|
            0 <= i < rows1.len() && 0 <= j < rows2.len() && rows1[i] == rows2[j] ==> #[trigger] rendered(
                rows1,
                max_lines,
            )[i] == #[trigger] rendered(rows2, max_lines)[j],
        rendered(rows1, max_lines).to_multiset() == rendered(rows2, max_lines).to_multiset(),
{
    lemma_measured_order_independent(rows1, rows2, max_lines);
    vstd::seq_lib::to_multiset_len(rows1);
    vstd::seq_lib::to_multiset_len(rows2);
    let widths = measured(rows1, max_lines);
    let line = |row: RowModel| row_text(row, widths);
    assert(rendered(rows1, max_lines) =~= rows1.map_values(line));
    assert(rendered(rows2, max_lines) =~= rows2.map_values(line));
    lemma_map_same_elements(rows1, rows2, line);
}

/// Mapping two sequences with the same elements gives sequences with the
/// same elements.
proof fn lemma_map_same_elements<A, B>(s1: Seq<A>, s2: Seq<A>, f: spec_fn(A) -> B)
    requires
        s1.to_multiset() == s2.to_multiset(),
    ensures
        s1.map_values(f).to_multiset() == s2.map_values(f).to_multiset(),
    decreases s1.len(),
{
    broadcast use vstd::multiset::group_multiset_axioms;

    vstd::seq_lib::to_multiset_len(s1);
    vstd::seq_lib::to_multiset_len(s2);
    if s1.len() == 0 {
        assert(s1.map_values(f) =~= s2.map_values(f));
    } else {
        let a = s1.last();
        let front1 = s1.drop_last();
        vstd::seq_lib::to_multiset_contains(s1, a);
        vstd::seq_lib::to_multiset_contains(s2, a);
        assert(s1[s1.len() - 1] == a);
        assert(s1.contains(a));
        let j = choose|j: int| 0 <= j < s2.len() && s2[j] == a;
        let rest2 = s2.remove(j);
        assert(s1.remove(s1.len() - 1) =~= front1);
        vstd::seq_lib::to_multiset_remove(s1, s1.len() - 1);
        vstd::seq_lib::to_multiset_remove(s2, j);
        assert(front1.to_multiset() =~= rest2.to_multiset());
        lemma_map_same_elements(front1, rest2, f);
        let m1 = s1.map_values(f);
        let m2 = s2.map_values(f);
        assert(m1.remove(m1.len() - 1) =~= front1.map_values(f));
        assert(m2.remove(j) =~= rest2.map_values(f));
        vstd::seq_lib::to_multiset_remove(m1, m1.len() - 1);
        vstd::seq_lib::to_multiset_remove(m2, j);
        vstd::seq_lib::to_multiset_contains(m1, f(a));
        vstd::seq_lib::to_multiset_contains(m2, f(a));
        assert(m1[m1.len() - 1] == f(a));
        assert(m2[j] == f(a));
        assert(m1.contains(f(a)));
        assert(m2.contains(f(a)));
        assert(m1.to_multiset() =~= m1.to_multiset().remove(f(a)).insert(f(a)));
        assert(m2.to_multiset() =~= m2.to_multiset().remove(f(a)).insert(f(a)));
    }
}

} // verus!
