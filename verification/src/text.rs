use vstd::prelude::*;

verus! {

/// Appends one character to a string.
#[verifier::external_body]
pub(crate) fn push_char(s: &mut String, c: char)
    ensures
        final(s)@ == old(s)@.push(c),
{
    s.push(c);
}

/// The characters of a string slice, in order.
pub fn chars_of(s: &str) -> (out: Vec<char>)
    ensures
        out@ == s@,
{
    let mut out: Vec<char> = Vec::new();
    for c in it: s.chars()
        invariant
            out@ == it.seq().take(it.index() as int),
            it.seq() == s@,
    {
        out.push(c);
    }
    out
}

}

verus! {

/// The ASCII digit of a value below ten.
pub open spec fn digit_char(d: nat) -> char {
    ('0' as int + d) as char
}

/// The decimal digits of a natural number, most significant first, without leading zeros.
pub open spec fn decimal_text(n: nat) -> Seq<char>
    decreases n,
{
    if n < 10 {
        seq![digit_char(n)]
    } else {
        decimal_text(n / 10).push(digit_char(n % 10))
    }
}

/// Appends the decimal digits of a number.
pub fn push_decimal(out: &mut String, n: u64)
    ensures
        final(out)@ == old(out)@ + decimal_text(n as nat),
    decreases n,
{
    if n >= 10 {
        push_decimal(out, n / 10);
    }
    let d = (n % 10) as u8;
    push_char(out, (48u8 + d) as char);
    proof {
        assert(decimal_text(n as nat) =~= if n < 10 {
            seq![digit_char(n as nat)]
        } else {
            decimal_text((n / 10) as nat).push(digit_char((n % 10) as nat))
        });
    }
}

/// The decimal text of a number.
pub fn decimal(n: u64) -> (text: String)
    ensures
        text@ == decimal_text(n as nat),
{
    let mut text = String::new();
    push_decimal(&mut text, n);
    assert(text@ =~= decimal_text(n as nat));
    text
}

/// The pieces of a text between the occurrences of a separator character, as `str::split`
/// gives them: an empty text has one empty piece, and each separator starts a new piece.
pub open spec fn split_on(s: Seq<char>, sep: char) -> Seq<Seq<char>>
    decreases s.len(),
{
    if s.len() == 0 {
        seq![Seq::empty()]
    } else {
        let pieces = split_on(s.drop_last(), sep);
        if s.last() == sep {
            pieces.push(Seq::empty())
        } else {
            pieces.update(pieces.len() - 1, pieces.last().push(s.last()))
        }
    }
}

/// Splitting never gives an empty list of pieces.
pub proof fn lemma_split_on_nonempty(s: Seq<char>, sep: char)
    ensures
        split_on(s, sep).len() >= 1,
    decreases s.len(),
{
    if s.len() > 0 {
        lemma_split_on_nonempty(s.drop_last(), sep);
    }
}

/// Pieces joined with a separator between each neighbouring pair, as `join` gives them.
pub open spec fn join_with(pieces: Seq<Seq<char>>, sep: Seq<char>) -> Seq<char>
    decreases pieces.len(),
{
    if pieces.len() == 0 {
        Seq::empty()
    } else if pieces.len() == 1 {
        pieces[0]
    } else {
        join_with(pieces.drop_last(), sep) + sep + pieces.last()
    }
}

/// Splits a text into its pieces between separator characters.
pub fn split_chars(s: &[char], sep: char) -> (pieces: Vec<Vec<char>>)
    ensures
        pieces@.len() == split_on(s@, sep).len(),
        forall|i: int| 0 <= i < pieces@.len() ==> #[trigger] pieces@[i]@ == split_on(s@, sep)[i],
{
    let mut pieces: Vec<Vec<char>> = Vec::new();
    let mut current: Vec<char> = Vec::new();
    let mut index: usize = 0;
    while index < s.len()
        invariant
            index <= s@.len(),
            pieces@.len() + 1 == split_on(s@.take(index as int), sep).len(),
            forall|i: int|
                0 <= i < pieces@.len() ==> #[trigger] pieces@[i]@ == split_on(
                    s@.take(index as int),
                    sep,
                )[i],
            current@ == split_on(s@.take(index as int), sep).last(),
        decreases s@.len() - index,
    {
        proof {
            lemma_split_on_nonempty(s@.take(index as int), sep);
            assert(s@.take(index + 1).drop_last() =~= s@.take(index as int));
        }
        let c = s[index];
        if c == sep {
            pieces.push(current);
            current = Vec::new();
        } else {
            current.push(c);
        }
        index = index + 1;
        proof {
            assert(current@ =~= split_on(s@.take(index as int), sep).last());
        }
    }
    pieces.push(current);
    proof {
        assert(s@.take(s@.len() as int) =~= s@);
        lemma_split_on_nonempty(s@, sep);
    }
    pieces
}

/// Joins pieces with a separator.
pub fn join_chars(pieces: &Vec<Vec<char>>, sep: char) -> (joined: Vec<char>)
    ensures
        joined@ == join_with(pieces@.map_values(|p: Vec<char>| p@), seq![sep]),
{
    let ghost views = pieces@.map_values(|p: Vec<char>| p@);
    let mut joined: Vec<char> = Vec::new();
    let mut index: usize = 0;
    while index < pieces.len()
        invariant
            index <= pieces@.len(),
            views == pieces@.map_values(|p: Vec<char>| p@),
            joined@ == join_with(views.take(index as int), seq![sep]),
        decreases pieces@.len() - index,
    {
        proof {
            assert(views.take(index + 1).drop_last() =~= views.take(index as int));
        }
        if index > 0 {
            joined.push(sep);
        }
        let piece = &pieces[index];
        let mut k: usize = 0;
        let ghost before = joined@;
        while k < piece.len()
            invariant
                k <= piece@.len(),
                joined@ == before + piece@.take(k as int),
            decreases piece@.len() - k,
        {
            joined.push(piece[k]);
            k = k + 1;
            proof {
                assert(piece@.take(k as int) =~= piece@.take(k - 1).push(piece@[k - 1]));
            }
        }
        index = index + 1;
        proof {
            assert(piece@.take(k as int) =~= piece@);
            assert(views.take(index as int).last() == piece@);
            if index == 1 {
                assert(joined@ =~= join_with(views.take(index as int), seq![sep]));
            } else {
                assert(joined@ =~= join_with(views.take(index as int), seq![sep]));
            }
        }
    }
    assert(views.take(pieces@.len() as int) =~= views);
    joined
}

/// A string with the given characters.
pub fn string_of(chars: &[char]) -> (s: String)
    ensures
        s@ == chars@,
{
    let mut s = String::new();
    let mut index: usize = 0;
    while index < chars.len()
        invariant
            index <= chars@.len(),
            s@ == chars@.take(index as int),
        decreases chars@.len() - index,
    {
        push_char(&mut s, chars[index]);
        index = index + 1;
        assert(s@ =~= chars@.take(index as int));
    }
    assert(chars@.take(chars@.len() as int) =~= chars@);
    s
}

/// Whether two character sequences are equal.
pub fn chars_equal(a: &[char], b: &[char]) -> (equal: bool)
    ensures
        equal == (a@ == b@),
{
    if a.len() != b.len() {
        return false;
    }
    let mut index: usize = 0;
    while index < a.len()
        invariant
            a@.len() == b@.len(),
            index <= a@.len(),
            forall|i: int| 0 <= i < index ==> a@[i] == b@[i],
        decreases a@.len() - index,
    {
        if a[index] != b[index] {
            return false;
        }
        index = index + 1;
    }
    assert(a@ =~= b@);
    true
}

} // verus!

verus! {

/// A string with the characters of a range of a character slice.
pub fn string_of_range(chars: &[char], from: usize, to: usize) -> (s: String)
    requires
        from <= to <= chars@.len(),
    ensures
        s@ == chars@.subrange(from as int, to as int),
{
    let mut s = String::new();
    let mut index: usize = from;
    while index < to
        invariant
            from <= index <= to <= chars@.len(),
            s@ == chars@.subrange(from as int, index as int),
        decreases to - index,
    {
        push_char(&mut s, chars[index]);
        index = index + 1;
        assert(s@ =~= chars@.subrange(from as int, index as int));
    }
    s
}

} // verus!

verus! {

/// The characters that `char::is_whitespace` accepts: those with the Unicode `White_Space`
/// property.
pub open spec fn is_whitespace(c: char) -> bool {
    ('\u{9}' <= c && c <= '\u{d}') || c == ' ' || c == '\u{85}' || c == '\u{a0}' || c == '\u{1680}'
        || ('\u{2000}' <= c && c <= '\u{200a}') || c == '\u{2028}' || c == '\u{2029}' || c
        == '\u{202f}' || c == '\u{205f}' || c == '\u{3000}'
}

pub fn char_is_whitespace(c: char) -> (whitespace: bool)
    ensures
        whitespace == is_whitespace(c),
{
    ('\u{9}' <= c && c <= '\u{d}') || c == ' ' || c == '\u{85}' || c == '\u{a0}' || c == '\u{1680}'
        || ('\u{2000}' <= c && c <= '\u{200a}') || c == '\u{2028}' || c == '\u{2029}' || c
        == '\u{202f}' || c == '\u{205f}' || c == '\u{3000}'
}

/// How many whitespace characters a text starts with.
pub open spec fn leading_whitespace(s: Seq<char>) -> nat
    decreases s.len(),
{
    if s.len() > 0 && is_whitespace(s[0]) {
        1 + leading_whitespace(s.skip(1))
    } else {
        0
    }
}

/// How many whitespace characters a text ends with.
pub open spec fn trailing_whitespace(s: Seq<char>) -> nat
    decreases s.len(),
{
    if s.len() > 0 && is_whitespace(s.last()) {
        1 + trailing_whitespace(s.drop_last())
    } else {
        0
    }
}

pub proof fn lemma_leading_whitespace_bound(s: Seq<char>)
    ensures
        leading_whitespace(s) <= s.len(),
    decreases s.len(),
{
    if s.len() > 0 && is_whitespace(s[0]) {
        lemma_leading_whitespace_bound(s.skip(1));
    }
}

pub proof fn lemma_trailing_whitespace_bound(s: Seq<char>)
    ensures
        trailing_whitespace(s) <= s.len(),
    decreases s.len(),
{
    if s.len() > 0 && is_whitespace(s.last()) {
        lemma_trailing_whitespace_bound(s.drop_last());
    }
}

/// A text without its leading and trailing whitespace, as `str::trim` gives it.
pub open spec fn trimmed(s: Seq<char>) -> Seq<char> {
    let rest = s.skip(leading_whitespace(s) as int);
    rest.take(rest.len() - trailing_whitespace(rest))
}

/// The bounds of a text without its leading and trailing whitespace.
pub fn trim_bounds(s: &[char]) -> (bounds: (usize, usize))
    ensures
        bounds.0 <= bounds.1 <= s@.len(),
        s@.subrange(bounds.0 as int, bounds.1 as int) == trimmed(s@),
{
    let mut from: usize = 0;
    assert(s@.skip(0) =~= s@);
    while from < s.len() && char_is_whitespace(s[from])
        invariant
            from <= s@.len(),
            leading_whitespace(s@) == from + leading_whitespace(s@.skip(from as int)),
        decreases s@.len() - from,
    {
        assert(s@.skip(from as int).skip(1) =~= s@.skip(from + 1));
        from = from + 1;
    }
    let ghost rest = s@.skip(from as int);
    assert(leading_whitespace(rest) == 0);
    let mut to: usize = s.len();
    assert(rest.take(rest.len() as int) =~= rest);
    while to > from && char_is_whitespace(s[to - 1])
        invariant
            from <= to <= s@.len(),
            rest == s@.skip(from as int),
            trailing_whitespace(rest) == (s@.len() - to) + trailing_whitespace(
                s@.subrange(from as int, to as int),
            ),
        decreases to - from,
    {
        assert(s@.subrange(from as int, to as int).drop_last() =~= s@.subrange(
            from as int,
            to - 1,
        ));
        to = to - 1;
    }
    proof {
        assert(s@.subrange(from as int, s@.len() as int) =~= rest);
        lemma_trailing_whitespace_bound(rest);
        assert(trailing_whitespace(s@.subrange(from as int, to as int)) == 0);
        assert(rest.take(rest.len() - trailing_whitespace(rest)) =~= s@.subrange(
            from as int,
            to as int,
        ));
    }
    (from, to)
}

/// The ASCII lower-case form of a character; other characters are unchanged.
pub open spec fn ascii_lower(c: char) -> char {
    if 'A' <= c && c <= 'Z' {
        ((c as int) + 32) as char
    } else {
        c
    }
}

pub fn to_ascii_lower(c: char) -> (lower: char)
    ensures
        lower == ascii_lower(c),
{
    if 'A' <= c && c <= 'Z' {
        ((c as u32 + 32) as u8) as char
    } else {
        c
    }
}

/// Whether two texts are equal ignoring ASCII case, as `eq_ignore_ascii_case` decides.
pub open spec fn equal_ignoring_ascii_case(a: Seq<char>, b: Seq<char>) -> bool {
    a.len() == b.len() && forall|i: int| 0 <= i < a.len() ==> ascii_lower(#[trigger] a[i])
        == ascii_lower(b[i])
}

/// Whether a range of a text equals a given text ignoring ASCII case.
pub fn range_equals_ignoring_ascii_case(s: &[char], from: usize, to: usize, expected: &[char]) -> (equal: bool)
    requires
        from <= to <= s@.len(),
    ensures
        equal == equal_ignoring_ascii_case(s@.subrange(from as int, to as int), expected@),
{
    if to - from != expected.len() {
        return false;
    }
    let mut index: usize = 0;
    while index < expected.len()
        invariant
            to - from == expected@.len(),
            from <= to <= s@.len(),
            index <= expected@.len(),
            forall|i: int|
                0 <= i < index ==> ascii_lower(s@[from + i]) == ascii_lower(expected@[i]),
        decreases expected@.len() - index,
    {
        if to_ascii_lower(s[from + index]) != to_ascii_lower(expected[index]) {
            assert(s@.subrange(from as int, to as int)[index as int] == s@[from + index]);
            return false;
        }
        index = index + 1;
    }
    assert forall|i: int|
        0 <= i < s@.subrange(from as int, to as int).len() implies ascii_lower(
        #[trigger] s@.subrange(from as int, to as int)[i],
    ) == ascii_lower(expected@[i]) by {
        assert(s@.subrange(from as int, to as int)[i] == s@[from + i]);
    }
    true
}

} // verus!

verus! {

/// Whether a text holds a pattern at a position.
pub open spec fn occurs_at(s: Seq<char>, pattern: Seq<char>, at: int) -> bool {
    0 <= at && at + pattern.len() <= s.len() && s.subrange(at, at + pattern.len()) == pattern
}

/// The first position at or after `from` where a pattern occurs, as `str::find` gives it on the
/// remainder.
pub open spec fn first_occurrence(s: Seq<char>, pattern: Seq<char>, from: int) -> Option<int>
    decreases s.len() + 1 - from,
{
    if from < 0 || from + pattern.len() > s.len() {
        None
    } else if occurs_at(s, pattern, from) {
        Some(from)
    } else {
        first_occurrence(s, pattern, from + 1)
    }
}

pub proof fn lemma_first_occurrence(s: Seq<char>, pattern: Seq<char>, from: int)
    requires
        0 <= from,
    ensures
        first_occurrence(s, pattern, from) matches Some(at) ==> from <= at && occurs_at(
            s,
            pattern,
            at,
        ),
        forall|i: int|
            from <= i && (first_occurrence(s, pattern, from) matches Some(at) ==> i < at) ==> !(
            #[trigger] occurs_at(s, pattern, i)),
    decreases s.len() + 1 - from,
{
    if from + pattern.len() <= s.len() && !occurs_at(s, pattern, from) {
        lemma_first_occurrence(s, pattern, from + 1);
    }
}

/// Whether a pattern occurs at a position of a slice.
pub fn matches_at(s: &[char], pattern: &[char], at: usize) -> (found: bool)
    ensures
        found == occurs_at(s@, pattern@, at as int),
{
    if at > s.len() || pattern.len() > s.len() - at {
        return false;
    }
    let mut index: usize = 0;
    while index < pattern.len()
        invariant
            at + pattern@.len() <= s@.len(),
            index <= pattern@.len(),
            forall|i: int| 0 <= i < index ==> s@[at + i] == pattern@[i],
        decreases pattern@.len() - index,
    {
        assert(at + index < s.len());
        if s[at + index] != pattern[index] {
            assert(s@.subrange(at as int, at + pattern@.len())[index as int] != pattern@[index as int]);
            return false;
        }
        index = index + 1;
    }
    assert(s@.subrange(at as int, at + pattern@.len()) =~= pattern@);
    true
}

/// The first position at or after `from` where a pattern occurs.
pub fn find_from(s: &[char], pattern: &[char], from: usize) -> (found: Option<usize>)
    ensures
        match found {
            Some(at) => first_occurrence(s@, pattern@, from as int) == Some(at as int),
            None => first_occurrence(s@, pattern@, from as int) is None,
        },
{
    if pattern.len() == 0 {
        if from <= s.len() {
            assert(s@.subrange(from as int, from as int) =~= pattern@);
            return Some(from);
        }
        return None;
    }
    let mut at = from;
    while at <= s.len() && pattern.len() <= s.len() - at
        invariant
            from <= at,
            pattern@.len() >= 1,
            first_occurrence(s@, pattern@, from as int) == first_occurrence(
                s@,
                pattern@,
                at as int,
            ),
        decreases s@.len() + 1 - at,
    {
        if matches_at(s, pattern, at) {
            return Some(at);
        }
        assert(at < s.len());
        at = at + 1;
    }
    None
}

/// The first position at or after `from` of a character.
pub fn find_char_from(s: &[char], c: char, from: usize) -> (found: Option<usize>)
    ensures
        match found {
            Some(at) => from <= at < s@.len() && s@[at as int] == c && forall|i: int|
                from <= i < at ==> s@[i] != c,
            None => forall|i: int| from <= i < s@.len() ==> s@[i] != c,
        },
{
    let mut at = from;
    while at < s.len()
        invariant
            from <= at,
            forall|i: int| from <= i < at ==> s@[i] != c,
        decreases s@.len() - at,
    {
        if s[at] == c {
            return Some(at);
        }
        at = at + 1;
    }
    None
}

/// Appends a range of characters.
pub fn push_range(out: &mut String, chars: &[char], from: usize, to: usize)
    requires
        from <= to <= chars@.len(),
    ensures
        final(out)@ == old(out)@ + chars@.subrange(from as int, to as int),
{
    let ghost start = out@;
    let mut index: usize = from;
    while index < to
        invariant
            from <= index <= to <= chars@.len(),
            out@ == start + chars@.subrange(from as int, index as int),
        decreases to - index,
    {
        push_char(out, chars[index]);
        index = index + 1;
        assert(out@ =~= start + chars@.subrange(from as int, index as int));
    }
}

} // verus!

verus! {

/// Searching from a later start is searching the remainder.
pub proof fn lemma_first_occurrence_shift(s: Seq<char>, pattern: Seq<char>, skip: int, from: int)
    requires
        0 <= skip <= s.len(),
        0 <= from,
    ensures
        match first_occurrence(s.skip(skip), pattern, from) {
            Some(at) => first_occurrence(s, pattern, skip + from) == Some(at + skip),
            None => first_occurrence(s, pattern, skip + from) is None,
        },
    decreases s.len() + 1 - (skip + from),
{
    let rest = s.skip(skip);
    if from + pattern.len() <= rest.len() {
        assert(rest.subrange(from, from + pattern.len()) =~= s.subrange(
            skip + from,
            skip + from + pattern.len(),
        ));
        if !occurs_at(rest, pattern, from) {
            lemma_first_occurrence_shift(s, pattern, skip, from + 1);
        }
    }
}

} // verus!
