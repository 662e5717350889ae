//! Rows of the table, and the capture of a file's leading lines.

use vstd::prelude::*;

verus! {

/// One file of the directory: its name and the leading lines of its content.
#[derive(Clone, Debug, PartialEq, Eq)]
pub struct Row {
    pub name: String,
    pub content_lines: Vec<String>,
}

/// A row as plain text: the name and the lines as sequences of characters.
pub struct RowModel {
    pub name: Seq<char>,
    pub lines: Seq<Seq<char>>,
}

/// The texts of a sequence of strings.
pub open spec fn lines_view(lines: Seq<String>) -> Seq<Seq<char>> {
    Seq::new(lines.len(), |i: int| lines[i]@)
}

impl View for Row {
    type V = RowModel;

    open spec fn view(&self) -> RowModel {
        RowModel { name: self.name@, lines: lines_view(self.content_lines@) }
    }
}

/// The models of a sequence of rows.
pub open spec fn rows_view(rows: Seq<Row>) -> Seq<RowModel> {
    Seq::new(rows.len(), |i: int| rows[i]@)
}

impl RowModel {
    /// The row has at most `max_lines` content lines.
    pub open spec fn fits(self, max_lines: nat) -> bool {
        self.lines.len() <= max_lines
    }
}

/// Every row has at most `max_lines` content lines.
pub open spec fn all_fit(rows: Seq<RowModel>, max_lines: nat) -> bool {
    forall|r: int| 0 <= r < rows.len() ==> (#[trigger] rows[r]).fits(max_lines)
}

impl Row {
    /// Builds a row from a name and its content lines.
    pub fn new(name: String, content_lines: Vec<String>) -> (row: Row)
        ensures
            row.name == name,
            row.content_lines == content_lines,
    {
        Row { name, content_lines }
    }
}

/// What one attempt to read a line gave: its text, or nothing when the line
/// could not be decoded.
pub open spec fn read_text(read: Option<Seq<char>>) -> Seq<char> {
    match read {
        Some(text) => text,
        None => Seq::empty(),
    }
}

/// What one read attempt gave, as text.
pub open spec fn read_view(read: Option<String>) -> Option<Seq<char>> {
    match read {
        Some(s) => Some(s@),
        None => None,
    }
}

/// The texts of a sequence of read attempts.
pub open spec fn reads_view(reads: Seq<Option<String>>) -> Seq<Option<Seq<char>>> {
    Seq::new(reads.len(), |i: int| read_view(reads[i]))
}

/// The lines kept of a file whose reader yielded `reads`, in order: the first
/// `max_lines` of them, a failed read counting as an empty line.
pub open spec fn captured(reads: Seq<Option<Seq<char>>>, max_lines: nat) -> Seq<Seq<char>> {
    Seq::new(
        if reads.len() <= max_lines {
            reads.len()
        } else {
            max_lines
        },
        |i: int| read_text(reads[i]),
    )
}

/// The lines kept after one more read attempt: the attempt's text is added
/// while fewer than `limit` lines are kept, and dropped after that.
pub open spec fn accepted(kept: Seq<Seq<char>>, limit: nat, read: Option<Seq<char>>) -> Seq<
    Seq<char>,
> {
    if kept.len() < limit {
        kept.push(read_text(read))
    } else {
        kept
    }
}

/// Collects the leading lines of one file as its reader hands them over, and
/// says when to stop reading.
pub struct LineCapture {
    limit: usize,
    lines: Vec<String>,
}

impl LineCapture {
    #[verifier::type_invariant]
    spec fn within_limit(self) -> bool {
        self.lines@.len() <= self.limit
    }

    /// The most lines this capture keeps.
    pub closed spec fn limit(&self) -> nat {
        self.limit as nat
    }

    /// The lines kept so far.
    pub closed spec fn kept(&self) -> Seq<Seq<char>> {
        lines_view(self.lines@)
    }

    /// An empty capture that keeps at most `max_lines` lines.
    pub fn new(max_lines: usize) -> (capture: LineCapture)
        ensures
            capture.limit() == max_lines,
            capture.kept() == Seq::<Seq<char>>::empty(),
    {
        let capture = LineCapture { limit: max_lines, lines: Vec::new() };
        assert(capture.kept() =~= Seq::<Seq<char>>::empty());
        capture
    }

    /// Whether another line should be read.
    pub fn wants_more(&self) -> (more: bool)
        ensures
            more == (self.kept().len() < self.limit()),
            self.kept().len() <= self.limit(),
    {
        proof {
            use_type_invariant(self);
        }
        self.lines.len() < self.limit
    }

    /// Takes what one read attempt gave. A line that could not be decoded is
    /// kept as an empty line; once the limit is reached nothing more is kept.
    pub fn accept(self, read: Option<String>) -> (next: LineCapture)
        ensures
            next.limit() == self.limit(),
            next.kept() == accepted(self.kept(), self.limit(), read_view(read)),
    {
        proof {
            use_type_invariant(&self);
        }
        let limit = self.limit;
        let mut lines = self.lines;
        if lines.len() < limit {
            let line = match read {
                Some(s) => s,
                None => String::new(),
            };
            lines.push(line);
            assert(lines_view(lines@) =~= self.kept().push(line@));
        }
        LineCapture { limit, lines }
    }

    /// The lines kept, in the order they were read.
    pub fn finish(self) -> (lines: Vec<String>)
        ensures
            lines_view(lines@) == self.kept(),
            lines@.len() <= self.limit(),
    {
        proof {
            use_type_invariant(&self);
        }
        self.lines
    }
}

/// Keeps the leading lines of a file whose reader yielded `reads`: at most
/// `max_lines` of them, in order, with an empty line for each failed read.
/// Lines beyond the limit are ignored.
pub fn capture_lines(reads: &Vec<Option<String>>, max_lines: usize) -> (lines: Vec<String>)
    ensures
        lines_view(lines@) == captured(reads_view(reads@), max_lines as nat),
{
    let mut capture = LineCapture::new(max_lines);
    let mut i: usize = 0;
    while i < reads.len() && capture.wants_more()
        invariant
            i <= reads@.len(),
            capture.limit() == max_lines,
            capture.kept() == captured(reads_view(reads@).take(i as int), max_lines as nat),
            capture.kept().len() == i,
        decreases reads@.len() - i,
    {
        let read = match &reads[i] {
            Some(s) => Some(s.clone()),
            None => None,
        };
        capture = capture.accept(read);
        i = i + 1;
        assert(capture.kept() =~= captured(reads_view(reads@).take(i as int), max_lines as nat));
    }
    let lines = capture.finish();
    assert(lines_view(lines@) =~= captured(reads_view(reads@), max_lines as nat));
    lines
}

} // verus!
