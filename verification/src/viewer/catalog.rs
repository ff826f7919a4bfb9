use vstd::prelude::*;

use crate::source_link::{upper_hex, utf8_bytes};
use crate::identifiers::{last_index_for, pair_views, recorded_index, IdentifierMap};
use crate::text::{
    chars_of, decimal_text, find_from, first_occurrence, push_decimal, string_of_range,
    trim_bounds, trimmed,
};

verus! {

/// The longest search query, in UTF-8 bytes.
pub const MAX_QUERY_BYTES: usize = 256;

/// The most results a catalog page shows.
pub const RESULT_LIMIT: usize = 50;

/// The lower-case form of a text, as `str::to_lowercase` gives it by Unicode's rules.
pub uninterp spec fn lowercase(text: Seq<char>) -> Seq<char>;

/// The lower-case form of a text, from `str::to_lowercase`; the result is named by the text.
#[verifier::external_body]
fn to_lowercase(text: &str) -> (lower: String)
    ensures
        lower@ == lowercase(text@),
{
    text.to_lowercase()
}

/// The name and value pairs of a form-encoded query, as `form_urlencoded::parse` decodes them.
pub uninterp spec fn form_pairs(query: Seq<char>) -> Seq<(Seq<char>, Seq<char>)>;

/// The name and value pairs of a form-encoded query, in order, from `form_urlencoded::parse`;
/// the result is named by the query.
#[verifier::external_body]
fn parse_form(query: &str) -> (pairs: Vec<(String, String)>)
    ensures
        pairs@.map_values(|p: (String, String)| (p.0@, p.1@)) == form_pairs(query@),
{
    form_urlencoded::parse(query.as_bytes()).map(|(name, value)| (name.into_owned(), value.into_owned())).collect()
}

/// Whether a byte stands for itself in a form query value: an ASCII letter or digit, `*`, `-`,
/// `.` or `_`.
pub open spec fn form_unchanged_byte(b: u8) -> bool {
    b == 0x2A || b == 0x2D || b == 0x2E || (0x30 <= b && b <= 0x39) || (0x41 <= b && b <= 0x5A)
        || b == 0x5F || (0x61 <= b && b <= 0x7A)
}

/// A byte as it stands in a form query value: itself, `+` for a space, or `%` and two
/// upper-case hexadecimal digits.
pub open spec fn form_byte(b: u8) -> Seq<char> {
    if form_unchanged_byte(b) {
        seq![b as char]
    } else if b == 0x20 {
        seq!['+']
    } else {
        seq!['%', upper_hex(b / 16), upper_hex(b % 16)]
    }
}

/// Bytes as they stand in a form query value.
pub open spec fn form_bytes(bytes: Seq<u8>) -> Seq<char>
    decreases bytes.len(),
{
    if bytes.len() == 0 {
        Seq::empty()
    } else {
        form_bytes(bytes.drop_last()) + form_byte(bytes.last())
    }
}

/// A text encoded for a form query value, as `form_urlencoded::byte_serialize` encodes it: each
/// UTF-8 byte in turn.
pub open spec fn form_serialized(text: Seq<char>) -> Seq<char>
    decreases text.len(),
{
    if text.len() == 0 {
        Seq::empty()
    } else {
        form_serialized(text.drop_last()) + form_bytes(utf8_bytes(text.last()))
    }
}

/// A text encoded for a form query value, from `form_urlencoded::byte_serialize`: letters,
/// digits and `*-._` kept, a space as `+`, any other UTF-8 byte as `%` and two upper-case
/// hexadecimal digits.
#[verifier::external_body]
fn serialize_form_value(text: &str) -> (encoded: String)
    ensures
        encoded@ == form_serialized(text@),
{
    form_urlencoded::byte_serialize(text.as_bytes()).collect()
}

/// The number of bytes of a character in UTF-8.
pub open spec fn utf8_width(c: char) -> nat {
    if (c as u32) < 0x80 {
        1
    } else if (c as u32) < 0x800 {
        2
    } else if (c as u32) < 0x10000 {
        3
    } else {
        4
    }
}

/// The number of bytes of a text in UTF-8.
pub open spec fn utf8_len(s: Seq<char>) -> nat
    decreases s.len(),
{
    if s.len() == 0 {
        0
    } else {
        utf8_len(s.drop_last()) + utf8_width(s.last())
    }
}

proof fn lemma_utf8_len_grows(s: Seq<char>, i: int)
    requires
        0 <= i <= s.len(),
    ensures
        utf8_len(s.take(i)) <= utf8_len(s),
    decreases s.len() - i,
{
    if i < s.len() {
        assert(s.drop_last().take(i) =~= s.take(i));
        lemma_utf8_len_grows(s.drop_last(), i);
    } else {
        assert(s.take(i) =~= s);
    }
}

/// Whether a text takes more than a number of bytes in UTF-8.
pub fn utf8_longer_than(text: &str, limit: usize) -> (longer: bool)
    ensures
        longer == (utf8_len(text@) > limit),
{
    let chars = chars_of(text);
    let mut total: usize = 0;
    let mut index: usize = 0;
    while index < chars.len()
        invariant
            index <= chars@.len(),
            chars@ == text@,
            total == utf8_len(chars@.take(index as int)),
            total <= limit,
        decreases chars@.len() - index,
    {
        let c = chars[index];
        let code = c as u32;
        let width: usize = if code < 0x80 {
            1
        } else if code < 0x800 {
            2
        } else if code < 0x10000 {
            3
        } else {
            4
        };
        proof {
            assert(chars@.take(index + 1).drop_last() =~= chars@.take(index as int));
            assert(chars@.take(index + 1).last() == c);
        }
        if width > limit - total {
            proof {
                lemma_utf8_len_grows(chars@, index + 1);
            }
            return true;
        }
        total = total + width;
        index = index + 1;
    }
    assert(chars@.take(index as int) =~= chars@);
    false
}

/// The number that a text of decimal digits spells.
pub open spec fn digits_value(s: Seq<char>) -> nat
    decreases s.len(),
{
    if s.len() == 0 {
        0
    } else {
        digits_value(s.drop_last()) * 10 + ((s.last() as nat) - ('0' as nat)) as nat
    }
}

/// Whether a text is made of decimal digits.
pub open spec fn all_digits(s: Seq<char>) -> bool {
    forall|i: int| 0 <= i < s.len() ==> '0' <= #[trigger] s[i] && s[i] <= '9'
}

/// The number a text spells as `str::parse::<usize>` reads it: an optional `+`, then at least
/// one decimal digit, and a value that fits.
pub open spec fn parsed_usize(s: Seq<char>) -> Option<usize> {
    let digits = if s.len() > 0 && s[0] == '+' {
        s.skip(1)
    } else {
        s
    };
    if digits.len() > 0 && all_digits(digits) && digits_value(digits) <= usize::MAX {
        Some(digits_value(digits) as usize)
    } else {
        None
    }
}

proof fn lemma_digits_value_grows(s: Seq<char>, i: int)
    requires
        0 <= i <= s.len(),
        all_digits(s),
    ensures
        digits_value(s.take(i)) <= digits_value(s),
    decreases s.len() - i,
{
    if i < s.len() {
        assert(s.drop_last().take(i) =~= s.take(i));
        assert(all_digits(s.drop_last()));
        lemma_digits_value_grows(s.drop_last(), i);
    } else {
        assert(s.take(i) =~= s);
    }
}

/// The number a text spells, as `str::parse::<usize>` reads it.
pub fn parse_usize(text: &str) -> (value: Option<usize>)
    ensures
        value == parsed_usize(text@),
{
    let chars = chars_of(text);
    let start: usize = if chars.len() > 0 && chars[0] == '+' {
        1
    } else {
        0
    };
    let ghost digits = if text@.len() > 0 && text@[0] == '+' {
        text@.skip(1)
    } else {
        text@
    };
    assert(digits =~= chars@.skip(start as int));
    if start == chars.len() {
        return None;
    }
    let mut acc: usize = 0;
    let mut index: usize = start;
    while index < chars.len()
        invariant
            start <= index <= chars@.len(),
            chars@ == text@,
            digits == chars@.skip(start as int),
            digits == (if text@.len() > 0 && text@[0] == '+' {
                text@.skip(1)
            } else {
                text@
            }),
            all_digits(chars@.subrange(start as int, index as int)),
            acc == digits_value(chars@.subrange(start as int, index as int)),
        decreases chars@.len() - index,
    {
        let c = chars[index];
        proof {
            assert(chars@.subrange(start as int, index + 1).drop_last() =~= chars@.subrange(
                start as int,
                index as int,
            ));
            assert(chars@.subrange(start as int, index + 1).last() == c);
            assert(digits.take(index + 1 - start) =~= chars@.subrange(start as int, index + 1));
        }
        if c < '0' || c > '9' {
            proof {
                assert(digits[index - start] == c);
                assert(!all_digits(digits));
            }
            return None;
        }
        let d = (c as u32 - '0' as u32) as usize;
        if acc > (usize::MAX - d) / 10 {
            proof {
                let prefix = chars@.subrange(start as int, index + 1);
                assert(prefix.last() == c);
                assert((c as nat) - ('0' as nat) == d);
                assert(digits_value(prefix) == digits_value(prefix.drop_last()) * 10 + d);
                assert(digits_value(chars@.subrange(start as int, index + 1)) == acc * 10 + d);
                assert(acc * 10 + d > usize::MAX) by (nonlinear_arith)
                    requires
                        acc > (usize::MAX - d) / 10,
                        d <= 9,
                ;
                if all_digits(digits) {
                    lemma_digits_value_grows(digits, index + 1 - start);
                }
            }
            return None;
        }
        acc = acc * 10 + d;
        index = index + 1;
        proof {
            assert(all_digits(chars@.subrange(start as int, index as int)));
        }
    }
    assert(chars@.subrange(start as int, index as int) =~= digits);
    Some(acc)
}

/// The value of the last pair of a name.
pub open spec fn last_value(pairs: Seq<(Seq<char>, Seq<char>)>, name: Seq<char>) -> Option<Seq<char>>
    decreases pairs.len(),
{
    if pairs.len() == 0 {
        None
    } else if pairs.last().0 == name {
        Some(pairs.last().1)
    } else {
        last_value(pairs.drop_last(), name)
    }
}

/// The query and page a navigation request asks for.
#[derive(Debug)]
pub struct NavigationRequest {
    pub query: Option<String>,
    pub page: Option<usize>,
}

/// The views of name and value pairs.
pub open spec fn pair_texts(pairs: Seq<(String, String)>) -> Seq<(Seq<char>, Seq<char>)> {
    pairs.map_values(|p: (String, String)| (p.0@, p.1@))
}

impl NavigationRequest {
    /// The request a raw query makes: its last `query` value, and the number its last `page`
    /// value spells, if it spells one.
    pub fn from_raw_query(raw_query: Option<&str>) -> (request: Self)
        ensures
            raw_query is None ==> request.query is None && request.page is None,
            raw_query matches Some(raw) ==> ({
                let pairs = form_pairs(raw@);
                &&& match last_value(pairs, "query"@) {
                    Some(v) => request.query matches Some(q) && q@ == v,
                    None => request.query is None,
                }
                &&& request.page == match last_value(pairs, "page"@) {
                    Some(v) => parsed_usize(v),
                    None => None,
                }
            }),
    {
        let mut query: Option<String> = None;
        let mut page: Option<usize> = None;
        match raw_query {
            Some(raw) => {
                let pairs = parse_form(raw);
                let ghost texts = pair_texts(pairs@);
                let query_name = chars_of("query");
                let page_name = chars_of("page");
                proof {
                    reveal_strlit("query");
                    reveal_strlit("page");
                }
                let mut index: usize = 0;
                while index < pairs.len()
                    invariant
                        index <= pairs@.len(),
                        texts == pair_texts(pairs@),
                        query_name@ == "query"@,
                        page_name@ == "page"@,
                        match last_value(texts.take(index as int), "query"@) {
                            Some(v) => query matches Some(q) && q@ == v,
                            None => query is None,
                        },
                        page == match last_value(texts.take(index as int), "page"@) {
                            Some(v) => parsed_usize(v),
                            None => None,
                        },
                    decreases pairs@.len() - index,
                {
                    let name = chars_of(pairs[index].0.as_str());
                    proof {
                        reveal_strlit("query");
                        reveal_strlit("page");
                        assert("query"@ != "page"@) by {
                            assert("query"@.len() != "page"@.len());
                        }
                        assert(texts.take(index + 1).drop_last() =~= texts.take(index as int));
                        assert(texts.take(index + 1).last() == (pairs@[index as int].0@, pairs@[index as int].1@));
                    }
                    if crate::text::chars_equal(name.as_slice(), query_name.as_slice()) {
                        query = Some(pairs[index].1.clone());
                    } else if crate::text::chars_equal(name.as_slice(), page_name.as_slice()) {
                        page = parse_usize(pairs[index].1.as_str());
                    }
                    index = index + 1;
                }
                proof {
                    assert(texts.take(index as int) =~= texts);
                    assert(texts == form_pairs(raw@));
                }
            },
            None => {},
        }
        NavigationRequest { query, page }
    }
}

/// A result of a catalog search: a document's identifier and index.
#[derive(Debug)]
pub struct CatalogEntry {
    pub identifier: String,
    pub document_index: usize,
}

/// A page of search results: the trimmed query, the page shown, the number of matches, and the
/// matches on the page.
#[derive(Debug)]
pub struct CatalogResults {
    pub query: String,
    pub page: usize,
    pub total: usize,
    pub entries: Vec<CatalogEntry>,
}

/// What a catalog search answers: a page of results, or a refusal of a query that is too long.
#[derive(Debug)]
pub enum CatalogPage {
    Results(CatalogResults),
    QueryTooLong { query: String },
}

/// Whether an identifier matches a query: the query's lower-case form occurs in the
/// identifier's.
pub open spec fn matches_query(identifier: Seq<char>, query: Seq<char>) -> bool {
    first_occurrence(lowercase(identifier), lowercase(query), 0) is Some
}

/// The identifiers and indices that match a query, in identifier order.
pub open spec fn matching(entries: Seq<(Seq<char>, usize)>, query: Seq<char>) -> Seq<(Seq<char>, usize)> {
    entries.filter(|e: (Seq<char>, usize)| matches_query(e.0, query))
}

/// The number of result pages for a number of matches.
pub open spec fn page_count(total: nat) -> nat {
    total / (RESULT_LIMIT as nat) + if total % (RESULT_LIMIT as nat) != 0 {
        1nat
    } else {
        0nat
    }
}

/// The page shown for a requested page: a positive page among the pages there are, else the
/// first.
pub open spec fn shown_page(requested: Option<usize>, total: nat) -> nat {
    let wanted: nat = match requested {
        Some(p) => if p > 0 {
            p as nat
        } else {
            1
        },
        None => 1,
    };
    let pages = if page_count(total) > 1 {
        page_count(total)
    } else {
        1
    };
    if wanted <= pages {
        wanted
    } else {
        1
    }
}

/// The entries shown on a page of matches.
pub open spec fn page_entries(matches: Seq<(Seq<char>, usize)>, page: nat) -> Seq<(Seq<char>, usize)> {
    let first = ((page - 1) * RESULT_LIMIT) as int;
    let last = if first + RESULT_LIMIT < matches.len() {
        first + RESULT_LIMIT
    } else {
        matches.len() as int
    };
    if first < matches.len() {
        matches.subrange(first, last)
    } else {
        Seq::empty()
    }
}

/// The views of catalog entries.
pub open spec fn entry_views(entries: Seq<CatalogEntry>) -> Seq<(Seq<char>, usize)> {
    entries.map_values(|e: CatalogEntry| (e.identifier@, e.document_index))
}

/// The discovered documents of a session, by identifier, for navigation and search.
pub struct DocumentCatalog {
    document_ids: IdentifierMap,
}

impl DocumentCatalog {
    /// The identifiers and indices, in identifier order.
    pub closed spec fn entries(&self) -> Seq<(Seq<char>, usize)> {
        self.document_ids.entries_view()
    }

    /// A catalog of identifier and index pairs; a repeated identifier keeps its last index.
    pub fn new(document_ids: Vec<(String, usize)>) -> (catalog: Self)
        ensures
            forall|k: Seq<char>|
                #[trigger] recorded_index(catalog.entries(), k) == last_index_for(
                    pair_views(document_ids@),
                    k,
                ),
    {
        DocumentCatalog { document_ids: IdentifierMap::from_pairs(document_ids) }
    }

    /// The document index of an identifier, if it is known.
    pub fn known_document_index(&self, identifier: &str) -> (index: Option<usize>)
        ensures
            index == recorded_index(self.entries(), identifier@),
    {
        self.document_ids.get(identifier)
    }

    /// The known identifiers, in identifier order.
    pub fn known_document_ids(&self) -> (ids: Vec<String>)
        ensures
            ids@.map_values(|s: String| s@) == self.entries().map_values(|e: (Seq<char>, usize)| e.0),
    {
        let mut ids: Vec<String> = Vec::new();
        let mut position: usize = 0;
        let count = self.document_ids.len();
        while position < count
            invariant
                count == self.entries().len(),
                position <= count,
                ids@.len() == position,
                forall|i: int| 0 <= i < position ==> #[trigger] ids@[i]@ == self.entries()[i].0,
            decreases count - position,
        {
            let (identifier, _) = self.document_ids.entry(position);
            ids.push(identifier.clone());
            position = position + 1;
        }
        proof {
            assert(ids@.map_values(|s: String| s@) =~= self.entries().map_values(
                |e: (Seq<char>, usize)| e.0,
            ));
        }
        ids
    }

    /// Searches the catalog: a query above the byte limit is refused; otherwise the trimmed
    /// query's matches are counted and the requested page of them, or the first, is shown.
    pub fn search(&self, request: &NavigationRequest) -> (page: CatalogPage)
        ensures
            ({
                let raw = match request.query {
                    Some(q) => q@,
                    None => Seq::<char>::empty(),
                };
                &&& utf8_len(raw) > MAX_QUERY_BYTES ==> (page matches CatalogPage::QueryTooLong {
                    query,
                } && query@ == raw)
                &&& utf8_len(raw) <= MAX_QUERY_BYTES ==> (page matches CatalogPage::Results(
                    results,
                ) && {
                    let matches = matching(self.entries(), trimmed(raw));
                    &&& results.query@ == trimmed(raw)
                    &&& results.total == matches.len()
                    &&& results.page == shown_page(request.page, matches.len())
                    &&& entry_views(results.entries@) == page_entries(matches, results.page as nat)
                })
            }),
    {
        let raw: String = match &request.query {
            Some(q) => q.clone(),
            None => String::new(),
        };
        if utf8_longer_than(raw.as_str(), MAX_QUERY_BYTES) {
            return CatalogPage::QueryTooLong { query: raw };
        }
        let raw_chars = chars_of(raw.as_str());
        let (from, to) = trim_bounds(raw_chars.as_slice());
        let query = string_of_range(raw_chars.as_slice(), from, to);
        let lowered_query = to_lowercase(query.as_str());
        let pattern = chars_of(lowered_query.as_str());
        let ghost entries = self.entries();
        let ghost wanted = |e: (Seq<char>, usize)| matches_query(e.0, query@);
        let count = self.document_ids.len();
        let mut found: Vec<(String, usize)> = Vec::new();
        let mut position: usize = 0;
        while position < count
            invariant
                count == entries.len(),
                entries == self.entries(),
                position <= count,
                pattern@ == lowercase(query@),
                wanted == (|e: (Seq<char>, usize)| matches_query(e.0, query@)),
                pair_views(found@) == entries.take(position as int).filter(wanted),
            decreases count - position,
        {
            let (identifier, index) = self.document_ids.entry(position);
            let lowered = to_lowercase(identifier.as_str());
            let text = chars_of(lowered.as_str());
            let hit = find_from(text.as_slice(), pattern.as_slice(), 0).is_some();
            proof {
                let before = entries.take(position as int);
                assert(entries.take(position + 1) =~= before.push(entries[position as int]));
                before.lemma_filter_push(entries[position as int], wanted);
            }
            if hit {
                found.push((identifier.clone(), index));
            }
            position = position + 1;
            proof {
                assert(pair_views(found@) =~= entries.take(position as int).filter(wanted));
            }
        }
        proof {
            assert(entries.take(position as int) =~= entries);
            assert(entries.filter(wanted) =~= matching(entries, query@));
        }
        let total = found.len();
        let pages: usize = total / RESULT_LIMIT + if total % RESULT_LIMIT != 0 {
            1
        } else {
            0
        };
        let wanted_page: usize = match request.page {
            Some(p) => if p > 0 {
                p
            } else {
                1
            },
            None => 1,
        };
        let available = if pages > 1 {
            pages
        } else {
            1
        };
        let page = if wanted_page <= available {
            wanted_page
        } else {
            1
        };
        assert(page as nat == shown_page(request.page, total as nat));
        assert(1 <= page <= total / 50 + 1);
        assert((page - 1) * 50 <= total) by (nonlinear_arith)
            requires
                1 <= page <= total / 50 + 1,
        ;
        let first: usize = (page - 1) * RESULT_LIMIT;
        let mut entries_out: Vec<CatalogEntry> = Vec::new();
        let mut index = first;
        while index < found.len() && index - first < RESULT_LIMIT
            invariant
                first <= index,
                index - first <= RESULT_LIMIT,
                first == (page - 1) * 50,
                first <= total,
                total == found@.len(),
                index <= total || index == first,
                entries_out@.len() == index - first,
                forall|i: int|
                    0 <= i < entries_out@.len() ==> (#[trigger] entries_out@[i]).identifier@
                        == found@[first + i].0@ && entries_out@[i].document_index == found@[first + i].1,
            decreases found@.len() - index,
        {
            entries_out.push(
                CatalogEntry { identifier: found[index].0.clone(), document_index: found[index].1 },
            );
            index = index + 1;
        }
        proof {
            let matches = pair_views(found@);
            assert(entry_views(entries_out@) =~= page_entries(matches, page as nat));
        }
        CatalogPage::Results(CatalogResults { query, page, total, entries: entries_out })
    }
}

impl CatalogResults {
    /// Whether there is a page before this one.
    pub fn has_previous_page(&self) -> (previous: bool)
        ensures
            previous == (self.page > 1),
    {
        self.page > 1
    }

    /// Whether there are matches after this page.
    pub fn has_next_page(&self) -> (next: bool)
        ensures
            next == (self.page * RESULT_LIMIT < self.total),
    {
        (self.page as u128) * (RESULT_LIMIT as u128) < (self.total as u128)
    }

    /// The query text that asks for a page of these results.
    pub fn page_query(&self, page: usize) -> (query: String)
        ensures
            query@ == "query="@ + form_serialized(self.query@) + "&page="@ + decimal_text(page as nat),
    {
        let mut query = "query=".to_owned();
        let encoded = serialize_form_value(self.query.as_str());
        query.append(encoded.as_str());
        query.append("&page=");
        push_decimal(&mut query, page as u64);
        query
    }
}

} // verus!
