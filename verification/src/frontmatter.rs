use vstd::prelude::*;

use crate::text::{chars_of, string_of_range};

verus! {

/// The index of the line feed that ends the line starting at `start`, or the text's length.
pub open spec fn line_end(s: Seq<char>, start: int) -> int
    decreases s.len() - start,
{
    if start < 0 || start >= s.len() {
        s.len() as int
    } else if s[start] == '\n' {
        start
    } else {
        line_end(s, start + 1)
    }
}

pub proof fn lemma_line_end_bounds(s: Seq<char>, start: int)
    requires
        0 <= start <= s.len(),
    ensures
        start <= line_end(s, start) <= s.len(),
        line_end(s, start) < s.len() ==> s[line_end(s, start)] == '\n',
        forall|i: int| start <= i < line_end(s, start) ==> s[i] != '\n',
    decreases s.len() - start,
{
    if start < s.len() && s[start] != '\n' {
        lemma_line_end_bounds(s, start + 1);
    }
}

/// The content of the line starting at `start`, without its line feed and without one
/// carriage return before it.
pub open spec fn line_content(s: Seq<char>, start: int) -> Seq<char> {
    let raw = s.subrange(start, line_end(s, start));
    if raw.len() > 0 && raw.last() == '\r' {
        raw.drop_last()
    } else {
        raw
    }
}

/// Where the line after the one starting at `start` begins.
pub open spec fn line_next(s: Seq<char>, start: int) -> int {
    let end = line_end(s, start);
    if end < s.len() {
        end + 1
    } else {
        end
    }
}

/// A line that closes frontmatter: `---` or `...`.
pub open spec fn is_closing_delimiter(line: Seq<char>) -> bool {
    line == seq!['-', '-', '-'] || line == seq!['.', '.', '.']
}

/// The first closing delimiter line at or after `position`, with where the line after it starts.
pub open spec fn closing_delimiter_from(s: Seq<char>, position: int) -> Option<(int, int)>
    decreases s.len() - position,
{
    if position < 0 || position >= s.len() {
        None
    } else if is_closing_delimiter(line_content(s, position)) {
        Some((position, line_next(s, position)))
    } else {
        proof {
            lemma_line_end_bounds(s, position);
        }
        closing_delimiter_from(s, line_next(s, position))
    }
}

/// Whether a document opens with a `---` line.
pub open spec fn opens_frontmatter(s: Seq<char>) -> bool {
    s.len() > 0 && line_content(s, 0) == seq!['-', '-', '-']
}

/// How a document's leading metadata block is delimited.
pub enum Frontmatter {
    /// The document does not open with a `---` line; all of it is the body.
    Absent,
    /// The metadata source between the delimiters, and the body after the closing line.
    Closed { source: String, body: String },
    /// An opening `---` line without a closing line; all of the document is the body.
    Unclosed,
}

/// The end of the line starting at `start`.
fn find_line_end(s: &[char], start: usize) -> (end: usize)
    requires
        start <= s@.len(),
    ensures
        end == line_end(s@, start as int),
{
    proof {
        lemma_line_end_bounds(s@, start as int);
    }
    let mut end = start;
    while end < s.len() && s[end] != '\n'
        invariant
            start <= end <= s@.len(),
            line_end(s@, end as int) == line_end(s@, start as int),
        decreases s@.len() - end,
    {
        end = end + 1;
    }
    end
}

/// Whether the line starting at `start` holds exactly three copies of `mark`.
fn line_is_triple(s: &[char], start: usize, mark: char) -> (triple: bool)
    requires
        start <= s@.len(),
    ensures
        triple == (line_content(s@, start as int) == seq![mark, mark, mark]),
{
    let end = find_line_end(s, start);
    proof {
        lemma_line_end_bounds(s@, start as int);
    }
    let content_end = if end > start && s[end - 1] == '\r' {
        end - 1
    } else {
        end
    };
    let ghost content = line_content(s@, start as int);
    assert(content =~= s@.subrange(start as int, content_end as int));
    if content_end - start != 3 {
        assert(content.len() != 3);
        return false;
    }
    let triple = s[start] == mark && s[start + 1] == mark && s[start + 2] == mark;
    if triple {
        assert(content =~= seq![mark, mark, mark]);
    } else {
        assert(content[0] != mark || content[1] != mark || content[2] != mark);
    }
    triple
}

/// Where the line after the one starting at `start` begins.
fn next_line_start(s: &[char], start: usize) -> (next: usize)
    requires
        start <= s@.len(),
    ensures
        next == line_next(s@, start as int),
        start < s@.len() ==> next > start,
        next <= s@.len(),
{
    proof {
        lemma_line_end_bounds(s@, start as int);
    }
    let end = find_line_end(s, start);
    if end < s.len() {
        end + 1
    } else {
        end
    }
}

/// Separates a leading metadata block, delimited by a `---` line and a closing `---` or `...`
/// line, from the document body.
pub fn split_frontmatter(markdown: &str) -> (split: Frontmatter)
    ensures
        split is Absent <==> !opens_frontmatter(markdown@),
        split matches Frontmatter::Closed { source, body } ==> {
            &&& closing_delimiter_from(markdown@, line_next(markdown@, 0)) matches Some(
                (position, after),
            )
            &&& source@ == markdown@.subrange(line_next(markdown@, 0), position)
            &&& body@ == markdown@.subrange(after, markdown@.len() as int)
        },
        split is Unclosed ==> closing_delimiter_from(markdown@, line_next(markdown@, 0)) is None,
{
    let chars = chars_of(markdown);
    let s = chars.as_slice();
    if s.len() == 0 || !line_is_triple(s, 0, '-') {
        return Frontmatter::Absent;
    }
    assert(opens_frontmatter(markdown@));
    let opening_end = next_line_start(s, 0);
    let mut position = opening_end;
    while position < s.len()
        invariant
            s@ == markdown@,
            opens_frontmatter(markdown@),
            opening_end == line_next(markdown@, 0),
            opening_end <= position <= s@.len(),
            closing_delimiter_from(s@, opening_end as int) == closing_delimiter_from(
                s@,
                position as int,
            ),
        decreases s@.len() - position,
    {
        let next = next_line_start(s, position);
        if line_is_triple(s, position, '-') || line_is_triple(s, position, '.') {
            assert(is_closing_delimiter(line_content(s@, position as int)));
            assert(closing_delimiter_from(s@, position as int) == Some(
                (position as int, next as int),
            ));
            let source = string_of_range(s, opening_end, position);
            let body = string_of_range(s, next, s.len());
            return Frontmatter::Closed { source, body };
        }
        assert(closing_delimiter_from(s@, position as int) == closing_delimiter_from(
            s@,
            next as int,
        ));
        position = next;
    }
    Frontmatter::Unclosed
}

} // verus!
