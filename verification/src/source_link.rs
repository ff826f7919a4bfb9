use vstd::prelude::*;

use percent_encoding::percent_decode_str;

use crate::paths::{relative_path, relative_target, relative_to, resolve_relative};
use crate::target::EntryKind;
use crate::text::{chars_of, split_chars, split_on, string_of};

verus! {

/// Whether a character is an ASCII hexadecimal digit.
pub open spec fn is_hex_digit(c: char) -> bool {
    ('0' <= c && c <= '9') || ('a' <= c && c <= 'f') || ('A' <= c && c <= 'F')
}

/// Whether, from a position on, every `%` of a text is followed by two hexadecimal digits
/// (the digits are not looked at again).
pub open spec fn valid_percent_from(s: Seq<char>, i: int) -> bool
    decreases s.len() - i,
{
    if i < 0 || i >= s.len() {
        true
    } else if s[i] == '%' {
        i + 2 < s.len() && is_hex_digit(s[i + 1]) && is_hex_digit(s[i + 2]) && valid_percent_from(
            s,
            i + 3,
        )
    } else {
        valid_percent_from(s, i + 1)
    }
}

fn hex_digit(c: char) -> (hex: bool)
    ensures
        hex == is_hex_digit(c),
{
    ('0' <= c && c <= '9') || ('a' <= c && c <= 'f') || ('A' <= c && c <= 'F')
}

/// Whether every `%` of a destination starts an escape of two hexadecimal digits.
pub fn has_valid_percent_encoding(destination: &str) -> (valid: bool)
    ensures
        valid == valid_percent_from(destination@, 0),
{
    let chars = chars_of(destination);
    let mut index: usize = 0;
    while index < chars.len()
        invariant
            chars@ == destination@,
            index <= chars@.len(),
            valid_percent_from(destination@, 0) == valid_percent_from(destination@, index as int),
        decreases chars@.len() - index,
    {
        if chars[index] == '%' {
            if chars.len() - index <= 2 || !hex_digit(chars[index + 1]) || !hex_digit(
                chars[index + 2],
            ) {
                return false;
            }
            index = index + 3;
        } else {
            index = index + 1;
        }
    }
    true
}

/// The text that a percent-encoded text decodes to, as `percent_decode_str` and
/// `decode_utf8` give it; none where the bytes are not UTF-8.
pub uninterp spec fn percent_decoded(text: Seq<char>) -> Option<Seq<char>>;

/// The decoded text of a percent-encoded text, from `percent_encoding::percent_decode_str`
/// and `decode_utf8`; the result is named by the text.
#[verifier::external_body]
fn decode_percent(text: &str) -> (decoded: Option<String>)
    ensures
        match decoded {
            Some(d) => percent_decoded(text@) == Some(d@),
            None => percent_decoded(text@) is None,
        },
{
    match percent_decode_str(text).decode_utf8() {
        Ok(decoded) => Some(decoded.into_owned()),
        Err(_) => None,
    }
}

/// The UTF-8 bytes of a character.
pub open spec fn utf8_bytes(c: char) -> Seq<u8> {
    let v = c as u32;
    if v < 0x80 {
        seq![v as u8]
    } else if v < 0x800 {
        seq![(0xC0 + v / 64) as u8, (0x80 + v % 64) as u8]
    } else if v < 0x10000 {
        seq![(0xE0 + v / 4096) as u8, (0x80 + (v / 64) % 64) as u8, (0x80 + v % 64) as u8]
    } else {
        seq![
            (0xF0 + v / 262144) as u8,
            (0x80 + (v / 4096) % 64) as u8,
            (0x80 + (v / 64) % 64) as u8,
            (0x80 + v % 64) as u8,
        ]
    }
}

/// Whether the path of a VS Code link has a byte percent-encoded: a byte beyond ASCII, a
/// control, space, or a mark that URLs give a meaning.
pub open spec fn vscode_escaped_byte(b: u8) -> bool {
    b >= 0x80 || b < 0x20 || b == 0x7F || b == 0x20 || b == 0x21 || b == 0x22 || b == 0x23 || b
        == 0x24 || b == 0x25 || b == 0x26 || b == 0x27 || b == 0x28 || b == 0x29 || b == 0x2A || b
        == 0x2B || b == 0x2C || b == 0x3B || b == 0x3C || b == 0x3D || b == 0x3E || b == 0x3F || b
        == 0x40 || b == 0x5B || b == 0x5C || b == 0x5D || b == 0x5E || b == 0x60 || b == 0x7B || b
        == 0x7C || b == 0x7D
}

/// The upper-case hexadecimal digit of a value below sixteen.
pub open spec fn upper_hex(d: u8) -> char {
    if d < 10 {
        ((d + 48) as u8) as char
    } else {
        ((d + 55) as u8) as char
    }
}

/// A byte as it stands in the path of a VS Code link: `%` and two upper-case hexadecimal
/// digits, or the character itself.
pub open spec fn encoded_byte(b: u8) -> Seq<char> {
    if vscode_escaped_byte(b) {
        seq!['%', upper_hex(b / 16), upper_hex(b % 16)]
    } else {
        seq![b as char]
    }
}

/// The encoded bytes of a sequence of bytes.
pub open spec fn encoded_bytes(bytes: Seq<u8>) -> Seq<char>
    decreases bytes.len(),
{
    if bytes.len() == 0 {
        Seq::empty()
    } else {
        encoded_bytes(bytes.drop_last()) + encoded_byte(bytes.last())
    }
}

/// A text percent-encoded for the path of a VS Code link, as `utf8_percent_encode` encodes it
/// with the link's set: each UTF-8 byte in turn.
pub open spec fn vscode_encoded(text: Seq<char>) -> Seq<char>
    decreases text.len(),
{
    if text.len() == 0 {
        Seq::empty()
    } else {
        vscode_encoded(text.drop_last()) + encoded_bytes(utf8_bytes(text.last()))
    }
}

/// Whether a character may stand in the encoded path of a VS Code link: an ASCII character
/// that is not escaped there, or the `%` that begins an escape.
pub open spec fn link_path_char(c: char) -> bool {
    (c as u32) < 0x80 && (c == '%' || !vscode_escaped_byte((c as u32) as u8))
}

proof fn lemma_encoded_byte_chars(b: u8)
    ensures
        forall|i: int| 0 <= i < encoded_byte(b).len() ==> link_path_char(#[trigger] encoded_byte(b)[i]),
{
    if vscode_escaped_byte(b) {
        let high = b / 16;
        let low = b % 16;
        assert(high < 16 && low < 16);
        assert(link_path_char(upper_hex(high)));
        assert(link_path_char(upper_hex(low)));
        assert(encoded_byte(b) == seq!['%', upper_hex(high), upper_hex(low)]);
    } else {
        assert(((b as char) as u32) as u8 == b);
        assert(encoded_byte(b) == seq![b as char]);
    }
}

proof fn lemma_encoded_bytes_chars(bytes: Seq<u8>)
    ensures
        forall|i: int| 0 <= i < encoded_bytes(bytes).len() ==> link_path_char(#[trigger] encoded_bytes(bytes)[i]),
    decreases bytes.len(),
{
    if bytes.len() > 0 {
        lemma_encoded_bytes_chars(bytes.drop_last());
        lemma_encoded_byte_chars(bytes.last());
        let front = encoded_bytes(bytes.drop_last());
        let back = encoded_byte(bytes.last());
        assert forall|i: int| 0 <= i < encoded_bytes(bytes).len() implies link_path_char(
            #[trigger] encoded_bytes(bytes)[i],
        ) by {
            if i < front.len() {
                assert(encoded_bytes(bytes)[i] == front[i]);
            } else {
                assert(encoded_bytes(bytes)[i] == back[i - front.len()]);
            }
        }
    }
}

/// The encoded path of a VS Code link holds only ASCII characters that the link leaves
/// unescaped, and `%` escapes: no space, quote, angle bracket or other reserved character of
/// the path survives encoding.
pub proof fn lemma_vscode_encoded_chars(text: Seq<char>)
    ensures
        forall|i: int| 0 <= i < vscode_encoded(text).len() ==> link_path_char(#[trigger] vscode_encoded(text)[i]),
    decreases text.len(),
{
    if text.len() > 0 {
        lemma_vscode_encoded_chars(text.drop_last());
        lemma_encoded_bytes_chars(utf8_bytes(text.last()));
        let front = vscode_encoded(text.drop_last());
        let back = encoded_bytes(utf8_bytes(text.last()));
        assert forall|i: int| 0 <= i < vscode_encoded(text).len() implies link_path_char(
            #[trigger] vscode_encoded(text)[i],
        ) by {
            if i < front.len() {
                assert(vscode_encoded(text)[i] == front[i]);
            } else {
                assert(vscode_encoded(text)[i] == back[i - front.len()]);
            }
        }
    }
}

fn hex_char(d: u8) -> (c: char)
    requires
        d < 16,
    ensures
        c == upper_hex(d),
{
    if d < 10 {
        (d + 48) as char
    } else {
        (d + 55) as char
    }
}

fn push_encoded_byte(out: &mut String, b: u8)
    ensures
        final(out)@ == old(out)@ + encoded_byte(b),
{
    let escaped = b >= 0x80 || b < 0x20 || b == 0x7F || b == 0x20 || b == 0x21 || b == 0x22 || b
        == 0x23 || b == 0x24 || b == 0x25 || b == 0x26 || b == 0x27 || b == 0x28 || b == 0x29 || b
        == 0x2A || b == 0x2B || b == 0x2C || b == 0x3B || b == 0x3C || b == 0x3D || b == 0x3E || b
        == 0x3F || b == 0x40 || b == 0x5B || b == 0x5C || b == 0x5D || b == 0x5E || b == 0x60 || b
        == 0x7B || b == 0x7C || b == 0x7D;
    if escaped {
        crate::text::push_char(out, '%');
        crate::text::push_char(out, hex_char(b / 16));
        crate::text::push_char(out, hex_char(b % 16));
        assert(final(out)@ =~= old(out)@ + encoded_byte(b));
    } else {
        crate::text::push_char(out, b as char);
        assert(final(out)@ =~= old(out)@ + encoded_byte(b));
    }
}

fn char_bytes(c: char) -> (bytes: Vec<u8>)
    ensures
        bytes@ == utf8_bytes(c),
{
    let v = c as u32;
    let mut bytes: Vec<u8> = Vec::new();
    if v < 0x80 {
        bytes.push(v as u8);
    } else if v < 0x800 {
        bytes.push((0xC0 + v / 64) as u8);
        bytes.push((0x80 + v % 64) as u8);
    } else if v < 0x10000 {
        bytes.push((0xE0 + v / 4096) as u8);
        bytes.push((0x80 + (v / 64) % 64) as u8);
        bytes.push((0x80 + v % 64) as u8);
    } else {
        bytes.push((0xF0 + v / 262144) as u8);
        bytes.push((0x80 + (v / 4096) % 64) as u8);
        bytes.push((0x80 + (v / 64) % 64) as u8);
        bytes.push((0x80 + v % 64) as u8);
    }
    assert(bytes@ =~= utf8_bytes(c));
    bytes
}

/// A text percent-encoded for the path of a VS Code link.
pub fn encode_vscode_path(text: &str) -> (encoded: String)
    ensures
        encoded@ == vscode_encoded(text@),
{
    let chars = chars_of(text);
    let mut encoded = String::new();
    let mut index: usize = 0;
    while index < chars.len()
        invariant
            index <= chars@.len(),
            chars@ == text@,
            encoded@ == vscode_encoded(chars@.take(index as int)),
        decreases chars@.len() - index,
    {
        let bytes = char_bytes(chars[index]);
        let ghost before = encoded@;
        let mut k: usize = 0;
        while k < bytes.len()
            invariant
                k <= bytes@.len(),
                encoded@ == before + encoded_bytes(bytes@.take(k as int)),
            decreases bytes@.len() - k,
        {
            push_encoded_byte(&mut encoded, bytes[k]);
            proof {
                assert(bytes@.take(k + 1).drop_last() =~= bytes@.take(k as int));
            }
            k = k + 1;
            assert(encoded@ =~= before + encoded_bytes(bytes@.take(k as int)));
        }
        proof {
            assert(bytes@.take(k as int) =~= bytes@);
            assert(chars@.take(index + 1).drop_last() =~= chars@.take(index as int));
        }
        index = index + 1;
        assert(encoded@ =~= vscode_encoded(chars@.take(index as int)));
    }
    assert(chars@.take(index as int) =~= chars@);
    encoded
}

/// Whether a character may continue a URI scheme.
pub open spec fn scheme_char(c: char) -> bool {
    ('a' <= c && c <= 'z') || ('A' <= c && c <= 'Z') || ('0' <= c && c <= '9') || c == '+' || c
        == '-' || c == '.'
}

/// Whether a text begins with a URI scheme: a letter, then letters, digits, `+`, `-` or `.`,
/// before its first `:`.
pub open spec fn uri_scheme(destination: Seq<char>) -> bool {
    match crate::viewer::state::first_char(destination, ':') {
        Some(colon) => colon > 0 && (('a' <= destination[0] && destination[0] <= 'z') || (
        'A' <= destination[0] && destination[0] <= 'Z')) && forall|i: int|
            1 <= i < colon ==> #[trigger] scheme_char(destination[i]),
        None => false,
    }
}

/// Whether a text begins with a URI scheme.
pub fn has_uri_scheme(destination: &str) -> (scheme: bool)
    ensures
        scheme == uri_scheme(destination@),
{
    let chars = chars_of(destination);
    let found = crate::text::find_char_from(chars.as_slice(), ':', 0);
    proof {
        crate::viewer::state::lemma_first_char(
            chars@,
            ':',
            match found {
                Some(at) => Some(at as int),
                None => None,
            },
        );
    }
    match found {
        None => false,
        Some(colon) => {
            if colon == 0 {
                return false;
            }
            let first = chars[0];
            if !(('a' <= first && first <= 'z') || ('A' <= first && first <= 'Z')) {
                return false;
            }
            let mut index: usize = 1;
            while index < colon
                invariant
                    1 <= index <= colon,
                    colon < chars@.len(),
                    chars@ == destination@,
                    crate::viewer::state::first_char(destination@, ':') == Some(colon as int),
                    ('a' <= chars@[0] && chars@[0] <= 'z') || ('A' <= chars@[0] && chars@[0] <= 'Z'),
                    forall|i: int| 1 <= i < index ==> #[trigger] scheme_char(chars@[i]),
                decreases colon - index,
            {
                let c = chars[index];
                if !(('a' <= c && c <= 'z') || ('A' <= c && c <= 'Z') || ('0' <= c && c <= '9') || c
                    == '+' || c == '-' || c == '.') {
                    assert(!scheme_char(chars@[index as int]));
                    return false;
                }
                index = index + 1;
            }
            true
        },
    }
}

/// The identifier a relative link reaches from the current document: the destination must
/// be correctly percent-encoded, decode to a non-empty relative path without backslashes or a
/// scheme, and stay inside the document root.
pub open spec fn normalized_link(current_document: Seq<char>, destination: Seq<char>) -> Option<
    Seq<char>,
> {
    if !valid_percent_from(destination, 0) {
        None
    } else {
        match percent_decoded(destination) {
            Some(decoded) => if decoded.len() == 0 || decoded[0] == '/' || decoded.contains('\\')
                || uri_scheme(decoded) {
                None
            } else {
                relative_target(current_document, decoded)
            },
            None => None,
        }
    }
}

/// The identifier a relative link reaches from the current document.
pub fn normalize_relative_link(current_document: &str, destination: &str) -> (identifier: Option<String>)
    ensures
        match normalized_link(current_document@, destination@) {
            Some(t) => identifier matches Some(i) && i@ == t,
            None => identifier is None,
        },
{
    if !has_valid_percent_encoding(destination) {
        return None;
    }
    let decoded = match decode_percent(destination) {
        Some(d) => d,
        None => {
            return None;
        },
    };
    let chars = chars_of(decoded.as_str());
    if chars.len() == 0 || chars[0] == '/' || crate::text::find_char_from(
        chars.as_slice(),
        '\\',
        0,
    ).is_some() || has_uri_scheme(decoded.as_str()) {
        proof {
            if !decoded@.contains('\\') {
                assert(forall|i: int| 0 <= i < decoded@.len() ==> decoded@[i] != '\\');
            }
        }
        return None;
    }
    proof {
        if decoded@.contains('\\') {
            let i = choose|i: int| 0 <= i < decoded@.len() && decoded@[i] == '\\';
            assert(chars@[i] == '\\');
        }
    }
    let current = chars_of(current_document);
    match resolve_relative(current.as_slice(), chars.as_slice()) {
        Some(target) => Some(string_of(target.as_slice())),
        None => None,
    }
}

/// A character of a path with a backslash turned into a forward slash.
pub open spec fn forward_slash(c: char) -> char {
    if c == '\\' {
        '/'
    } else {
        c
    }
}

/// A path with forward slashes only.
pub open spec fn slashed_path(path: Seq<char>) -> Seq<char> {
    path.map_values(|c: char| forward_slash(c))
}

/// A path without the `//?/` prefix of a verbatim Windows path; a verbatim `UNC/` path keeps
/// `//` before its server.
pub open spec fn unverbatim_path(path: Seq<char>) -> Seq<char> {
    if path.len() >= 4 && path.take(4) == "//?/"@ {
        let verbatim = path.skip(4);
        if verbatim.len() >= 4 && verbatim.take(4) == "UNC/"@ {
            "//"@ + verbatim.skip(4)
        } else {
            verbatim
        }
    } else {
        path
    }
}

/// A path without its leading `/`.
pub open spec fn without_leading_slash(path: Seq<char>) -> Seq<char> {
    if path.len() > 0 && path[0] == '/' {
        path.skip(1)
    } else {
        path
    }
}

/// A VS Code link to a file: `vscode://file/` and the file's path, with forward slashes,
/// without the prefix of a verbatim Windows path, without a leading `/`, and percent-encoded.
pub open spec fn vscode_url_text(path: Seq<char>) -> Seq<char> {
    "vscode://file/"@ + vscode_encoded(without_leading_slash(unverbatim_path(slashed_path(path))))
}

/// A VS Code link to a file.
pub fn vscode_url(path: &str) -> (url: String)
    ensures
        url@ == vscode_url_text(path@),
{
    let chars = chars_of(path);
    let mut slashed: Vec<char> = Vec::new();
    let mut index: usize = 0;
    while index < chars.len()
        invariant
            index <= chars@.len(),
            chars@ == path@,
            slashed@ == slashed_path(chars@.take(index as int)),
        decreases chars@.len() - index,
    {
        let c = chars[index];
        slashed.push(if c == '\\' { '/' } else { c });
        index = index + 1;
        proof {
            assert(slashed@ =~= slashed_path(chars@.take(index as int)));
        }
    }
    proof {
        assert(chars@.take(index as int) =~= chars@);
        reveal_strlit("//?/");
        reveal_strlit("UNC/");
        reveal_strlit("//");
    }
    let mut start: usize = 0;
    let mut prefix: Vec<char> = Vec::new();
    let verbatim_marker = ['/', '/', '?', '/'];
    let unc_marker = ['U', 'N', 'C', '/'];
    assert(verbatim_marker@ =~= "//?/"@);
    assert(unc_marker@ =~= "UNC/"@);
    if crate::text::matches_at(slashed.as_slice(), &verbatim_marker, 0) {
        start = 4;
        if crate::text::matches_at(slashed.as_slice(), &unc_marker, 4) {
            start = 8;
            prefix.push('/');
            prefix.push('/');
        }
    }
    let ghost unverbatim = prefix@ + slashed@.skip(start as int);
    proof {
        if slashed@.len() >= 4 {
            assert(slashed@.subrange(0, 4) =~= slashed@.take(4));
        }
        if slashed@.len() >= 8 {
            assert(slashed@.skip(4).take(4) =~= slashed@.subrange(4, 8));
        }
        if start == 8 {
            assert(slashed@.skip(4).skip(4) =~= slashed@.skip(8));
        }
        assert(prefix@ =~= if start == 8 {
            seq!['/', '/']
        } else {
            Seq::<char>::empty()
        });
    }
    let mut text: Vec<char> = Vec::new();
    let mut position: usize = 0;
    while position < prefix.len()
        invariant
            position <= prefix@.len(),
            text@ == prefix@.take(position as int),
        decreases prefix@.len() - position,
    {
        text.push(prefix[position]);
        position = position + 1;
        assert(text@ =~= prefix@.take(position as int));
    }
    let mut rest = start;
    while rest < slashed.len()
        invariant
            start <= rest <= slashed@.len(),
            text@ == prefix@ + slashed@.subrange(start as int, rest as int),
        decreases slashed@.len() - rest,
    {
        text.push(slashed[rest]);
        rest = rest + 1;
        assert(text@ =~= prefix@ + slashed@.subrange(start as int, rest as int));
    }
    assert(text@ =~= unverbatim) by {
        assert(prefix@.take(prefix@.len() as int) =~= prefix@);
    }
    let from: usize = if text.len() > 0 && text[0] == '/' {
        1
    } else {
        0
    };
    let relative = crate::text::string_of_range(text.as_slice(), from, text.len());
    let mut url = "vscode://file/".to_owned();
    let encoded = encode_vscode_path(relative.as_str());
    url.append(encoded.as_str());
    proof {
        assert(text@.subrange(from as int, text@.len() as int) =~= text@.skip(from as int));
        let spec_slashed = slashed_path(path@);
        assert(slashed@ =~= spec_slashed);
        let spec_unverbatim = unverbatim_path(spec_slashed);
        if start == 0 {
            assert(prefix@.len() == 0);
            assert(unverbatim =~= slashed@);
            assert(spec_unverbatim == slashed@);
        } else if start == 4 {
            assert(unverbatim =~= slashed@.skip(4));
            assert(spec_unverbatim == slashed@.skip(4));
        } else {
            assert(unverbatim =~= seq!['/', '/'] + slashed@.skip(8));
            assert(spec_unverbatim =~= seq!['/', '/'] + slashed@.skip(8));
        }
        assert(text@ == spec_unverbatim);
        assert(relative@ == without_leading_slash(spec_unverbatim));
        assert(encoded@ == vscode_encoded(without_leading_slash(spec_unverbatim)));
        reveal_strlit("vscode://file/");
        assert(url@ == "vscode://file/"@ + encoded@);
    }
    url
}

/// Whether a component of a link's path is hidden: it starts with `.`.
pub open spec fn hidden_link_component(component: Seq<char>) -> bool {
    component.len() > 0 && component[0] == '.'
}

/// The components a source link walks from the document root to its file: the current
/// document must lie below the root, the link must normalize, and no component may be hidden.
pub open spec fn source_link_components(root: Seq<char>, current_document: Seq<char>, destination: Seq<char>) -> Option<
    Seq<Seq<char>>,
> {
    match relative_to(root, current_document) {
        Some(current) => match normalized_link(current, destination) {
            Some(target) => {
                let components = split_on(target, '/');
                if exists|i: int|
                    0 <= i < components.len() && #[trigger] hidden_link_component(components[i]) {
                    None
                } else {
                    Some(components)
                }
            },
            None => None,
        },
        None => None,
    }
}

/// Whether the entries along a source link are directories, then a regular file at its end, one
/// for each of its components.
pub open spec fn walkable(entries: Seq<EntryKind>, count: nat) -> bool {
    &&& count > 0
    &&& entries.len() == count
    &&& forall|i: int| 0 <= i < count - 1 ==> entries[i] == EntryKind::Directory
    &&& entries[count - 1] == EntryKind::File
}

/// The VS Code link a source link gets: only where the current document lies below the root,
/// the link normalizes to visible components, each entry along it is a directory and the last
/// a regular file (no symbolic link among them), the file opens, and its canonical path lies
/// in the root.
pub open spec fn source_link_decision(
    root: Seq<char>,
    current_document: Seq<char>,
    destination: Seq<char>,
    entries: Seq<EntryKind>,
    opened: bool,
    canonical_target: Option<Seq<char>>,
) -> Option<Seq<char>> {
    match source_link_components(root, current_document, destination) {
        Some(components) => if walkable(entries, components.len()) && opened {
            match canonical_target {
                Some(c) => if relative_to(root, c) is Some {
                    Some(vscode_url_text(c))
                } else {
                    None
                },
                None => None,
            }
        } else {
            None
        },
        None => None,
    }
}

/// Links from the documents of a root to source files in it, as VS Code links.
pub struct SourceLinkResolver {
    pub document_root: String,
}

impl SourceLinkResolver {
    /// A resolver for a document root.
    pub fn new(document_root: String) -> (resolver: Self)
        ensures
            resolver.document_root@ == document_root@,
    {
        SourceLinkResolver { document_root }
    }

    /// The components a source link walks from the document root to its file, if it may lead
    /// to one.
    pub fn link_components(&self, current_document: &str, destination: &str) -> (components: Option<Vec<String>>)
        ensures
            match source_link_components(self.document_root@, current_document@, destination@) {
                Some(expected) => components matches Some(c) && c@.map_values(|s: String| s@)
                    == expected,
                None => components is None,
            },
    {
        let current = match relative_path(self.document_root.as_str(), current_document) {
            Some(c) => c,
            None => {
                return None;
            },
        };
        let target = match normalize_relative_link(current.as_str(), destination) {
            Some(t) => t,
            None => {
                return None;
            },
        };
        let chars = chars_of(target.as_str());
        let pieces = split_chars(chars.as_slice(), '/');
        let ghost expected = split_on(target@, '/');
        let mut components: Vec<String> = Vec::new();
        let mut index: usize = 0;
        while index < pieces.len()
            invariant
                index <= pieces@.len(),
                relative_to(self.document_root@, current_document@) == Some(current@),
                normalized_link(current@, destination@) == Some(target@),
                pieces@.len() == expected.len(),
                expected == split_on(target@, '/'),
                forall|i: int| 0 <= i < pieces@.len() ==> #[trigger] pieces@[i]@ == expected[i],
                components@.len() == index,
                forall|i: int| 0 <= i < index ==> #[trigger] components@[i]@ == expected[i],
                forall|i: int| 0 <= i < index ==> !hidden_link_component(#[trigger] expected[i]),
            decreases pieces@.len() - index,
        {
            let piece = &pieces[index];
            if piece.len() > 0 && piece[0] == '.' {
                assert(hidden_link_component(expected[index as int]));
                return None;
            }
            components.push(string_of(piece.as_slice()));
            index = index + 1;
        }
        proof {
            assert(components@.map_values(|s: String| s@) =~= expected);
        }
        Some(components)
    }

    /// The VS Code link of a file whose canonical path lies in the document root.
    pub fn link_for(&self, canonical_target: &str) -> (url: Option<String>)
        ensures
            relative_to(self.document_root@, canonical_target@) is Some ==> (url matches Some(u)
                && u@ == vscode_url_text(canonical_target@)),
            relative_to(self.document_root@, canonical_target@) is None ==> url is None,
    {
        if relative_path(self.document_root.as_str(), canonical_target).is_some() {
            Some(vscode_url(canonical_target))
        } else {
            None
        }
    }

    /// The VS Code link of a source link, decided from what the file system shows along it:
    /// the kind of each entry in turn below the document root (as far as they could be read),
    /// whether the last one opened, and its canonical path.
    pub fn source_link(
        &self,
        current_document: &str,
        destination: &str,
        entries: &[EntryKind],
        opened: bool,
        canonical_target: Option<&str>,
    ) -> (url: Option<String>)
        ensures
            match source_link_decision(
                self.document_root@,
                current_document@,
                destination@,
                entries@,
                opened,
                match canonical_target {
                    Some(c) => Some(c@),
                    None => None,
                },
            ) {
                Some(u) => url matches Some(v) && v@ == u,
                None => url is None,
            },
    {
        let components = match self.link_components(current_document, destination) {
            Some(c) => c,
            None => {
                return None;
            },
        };
        if components.len() == 0 || entries.len() != components.len() || !opened {
            return None;
        }
        let last = entries.len() - 1;
        let mut index: usize = 0;
        while index < last
            invariant
                last + 1 == entries@.len(),
                index <= last,
                forall|i: int| 0 <= i < index ==> entries@[i] == EntryKind::Directory,
            decreases last - index,
        {
            if entries[index] != EntryKind::Directory {
                return None;
            }
            index = index + 1;
        }
        if entries[last] != EntryKind::File {
            return None;
        }
        match canonical_target {
            Some(canonical) => self.link_for(canonical),
            None => None,
        }
    }
}

} // verus!
