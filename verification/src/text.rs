//! Character-level helpers: counting, padding and trimming of cell text.
//!
//! All widths are counts of Unicode scalar values, never bytes and never
//! terminal display columns.

use vstd::prelude::*;
use vstd::string::*;

verus! {

/// Whether `c` has the Unicode `White_Space` property, as `char::is_whitespace`
/// reports it.
pub uninterp spec fn is_whitespace(c: char) -> bool;

/// Calls `char::is_whitespace`. The contract only gives the answer its name,
/// so that text trimmed here is trimmed of exactly the characters that the
/// standard library calls whitespace.
#[verifier::external_body]
fn char_is_whitespace(c: char) -> (b: bool)
    ensures
        b == is_whitespace(c),
{
    c.is_whitespace()
}

/// `n` space characters.
pub open spec fn spaces(n: nat) -> Seq<char> {
    Seq::new(n, |i: int| ' ')
}

/// `text` left-justified in a field of `width` characters: followed by spaces
/// up to `width`, and unchanged when it is already that long or longer.
pub open spec fn padded(text: Seq<char>, width: nat) -> Seq<char> {
    if text.len() >= width {
        text
    } else {
        text + spaces((width - text.len()) as nat)
    }
}

/// The number of characters that remain of `text` once trailing whitespace is
/// taken off.
pub open spec fn trimmed_len(text: Seq<char>) -> nat
    decreases text.len(),
{
    if text.len() == 0 {
        0
    } else if is_whitespace(text.last()) {
        trimmed_len(text.drop_last())
    } else {
        text.len()
    }
}

/// `text` without its trailing whitespace.
pub open spec fn trimmed(text: Seq<char>) -> Seq<char> {
    text.take(trimmed_len(text) as int)
}

/// What `trimmed_len` is, said without recursion: it is at most the length,
/// everything from it on is whitespace, and the character before it is not.
pub proof fn lemma_trimmed_len(text: Seq<char>)
    ensures
        trimmed_len(text) <= text.len(),
        forall|i: int| trimmed_len(text) <= i < text.len() ==> is_whitespace(#[trigger] text[i]),
        trimmed_len(text) > 0 ==> !is_whitespace(text[trimmed_len(text) - 1]),
    decreases text.len(),
{
    if text.len() > 0 && is_whitespace(text.last()) {
        let front = text.drop_last();
        lemma_trimmed_len(front);
        assert forall|i: int| trimmed_len(text) <= i < text.len() implies is_whitespace(
            #[trigger] text[i],
        ) by {
            if i < front.len() {
                assert(text[i] == front[i]);
            }
        }
    }
}

/// Any cut point with only whitespace behind it and none directly before it
/// is the trimmed length.
pub proof fn lemma_trimmed_len_unique(text: Seq<char>, n: int)
    requires
        0 <= n <= text.len(),
        forall|i: int| n <= i < text.len() ==> is_whitespace(#[trigger] text[i]),
        n > 0 ==> !is_whitespace(text[n - 1]),
    ensures
        trimmed_len(text) == n,
    decreases text.len(),
{
    if text.len() > 0 && is_whitespace(text.last()) {
        let front = text.drop_last();
        assert forall|i: int| n <= i < front.len() implies is_whitespace(#[trigger] front[i]) by {
            assert(front[i] == text[i]);
        }
        lemma_trimmed_len_unique(front, n);
    }
}

/// The number of characters in `text`.
pub fn char_count(text: &str) -> (n: usize)
    ensures
        n == text@.len(),
{
    text.unicode_len()
}

/// Removes trailing whitespace from `text`.
pub fn trim_end(text: &str) -> (out: &str)
    ensures
        out@ == trimmed(text@),
{
    let mut end: usize = text.unicode_len();
    while end > 0 && char_is_whitespace(text.get_char(end - 1))
        invariant
            end <= text@.len(),
            forall|i: int| end <= i < text@.len() ==> is_whitespace(#[trigger] text@[i]),
        decreases end,
    {
        end = end - 1;
    }
    proof {
        lemma_trimmed_len_unique(text@, end as int);
    }
    text.substring_char(0, end)
}

/// Left-justifies `text` in a field of `width` characters.
pub fn pad_right(text: &str, width: usize) -> (out: String)
    ensures
        out@ == padded(text@, width as nat),
{
    let mut out = String::from_str(text);
    let mut n: usize = text.unicode_len();
    proof {
        reveal_strlit(" ");
    }
    while n < width
        invariant
            n >= text@.len(),
            n == text@.len() || n <= width,
            out@ =~= text@ + spaces((n - text@.len()) as nat),
            " "@ =~= seq![' '],
        decreases width - n,
    {
        out.append(" ");
        n = n + 1;
    }
    out
}

} // verus!
