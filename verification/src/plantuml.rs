use std::io::Write;

use flate2::{write::DeflateEncoder, Compression};
use vstd::prelude::*;

use crate::text::push_char;

verus! {

/// The public PlantUML server that a viewing session uses unless another is configured.
pub const PUBLIC_SERVER: &'static str = "https://www.plantuml.com/plantuml";

/// The character that PlantUML's URL alphabet assigns to a six-bit value.
pub open spec fn six_bit_char(value: int) -> char {
    if value <= 9 {
        ('0' as int + value) as char
    } else if value <= 35 {
        ('A' as int + value - 10) as char
    } else if value <= 61 {
        ('a' as int + value - 36) as char
    } else if value == 62 {
        '-'
    } else {
        '_'
    }
}

/// Whether a character belongs to PlantUML's URL alphabet.
pub open spec fn is_url_alphabet_char(c: char) -> bool {
    ('0' <= c && c <= '9') || ('A' <= c && c <= 'Z') || ('a' <= c && c <= 'z') || c == '-' || c
        == '_'
}

/// The four characters that encode three bytes: each holds six of the 24 bits, high bits first.
pub open spec fn triplet_chars(first: int, second: int, third: int) -> Seq<char> {
    seq![
        six_bit_char(first / 4),
        six_bit_char((first % 4) * 16 + second / 16),
        six_bit_char((second % 16) * 4 + third / 64),
        six_bit_char(third % 64),
    ]
}

/// PlantUML's text encoding of compressed bytes: groups of three bytes, the last group padded
/// with zero bytes, each group written as four alphabet characters.
pub open spec fn encoded_text(bytes: Seq<u8>) -> Seq<char>
    decreases bytes.len(),
{
    if bytes.len() == 0 {
        seq![]
    } else {
        let second: int = if bytes.len() > 1 { bytes[1] as int } else { 0 };
        let third: int = if bytes.len() > 2 { bytes[2] as int } else { 0 };
        let head = triplet_chars(bytes[0] as int, second, third);
        if bytes.len() <= 3 {
            head
        } else {
            head + encoded_text(bytes.skip(3))
        }
    }
}

proof fn lemma_six_bit_char_in_alphabet(value: int)
    requires
        0 <= value < 64,
    ensures
        is_url_alphabet_char(six_bit_char(value)),
{
}

/// The encoding of any bytes is made of PlantUML's URL alphabet only, four characters for
/// each group of three bytes (the last group padded).
pub proof fn lemma_encoded_text_shape(bytes: Seq<u8>)
    ensures
        encoded_text(bytes).len() == 4 * ((bytes.len() + 2) / 3),
        forall|i: int|
            0 <= i < encoded_text(bytes).len() ==> is_url_alphabet_char(
                #[trigger] encoded_text(bytes)[i],
            ),
    decreases bytes.len(),
{
    if bytes.len() > 0 {
        let first = bytes[0] as int;
        let second: int = if bytes.len() > 1 {
            bytes[1] as int
        } else {
            0
        };
        let third: int = if bytes.len() > 2 {
            bytes[2] as int
        } else {
            0
        };
        lemma_six_bit_char_in_alphabet(first / 4);
        lemma_six_bit_char_in_alphabet((first % 4) * 16 + second / 16);
        lemma_six_bit_char_in_alphabet((second % 16) * 4 + third / 64);
        lemma_six_bit_char_in_alphabet(third % 64);
        let head = triplet_chars(first, second, third);
        assert forall|i: int| 0 <= i < 4 implies is_url_alphabet_char(#[trigger] head[i]) by {}
        if bytes.len() > 3 {
            lemma_encoded_text_shape(bytes.skip(3));
            let tail = encoded_text(bytes.skip(3));
            assert forall|i: int|
                0 <= i < encoded_text(bytes).len() implies is_url_alphabet_char(
                #[trigger] encoded_text(bytes)[i],
            ) by {
                if i < 4 {
                    assert(encoded_text(bytes)[i] == head[i]);
                } else {
                    assert(encoded_text(bytes)[i] == tail[i - 4]);
                }
            }
        }
    }
}

/// The raw DEFLATE stream, at the best compression level, of a text's UTF-8 bytes.
pub uninterp spec fn deflated(source: Seq<char>) -> Seq<u8>;

/// Compresses a text's UTF-8 bytes into a raw DEFLATE stream with flate2's `DeflateEncoder`
/// at `Compression::best()`. The result is named `deflated`: the same text always gives the
/// same bytes. Writing into an in-memory buffer cannot fail.
#[verifier::external_body]
fn deflate_best(source: &str) -> (compressed: Vec<u8>)
    ensures
        compressed@ == deflated(source@),
{
    let mut encoder = DeflateEncoder::new(Vec::new(), Compression::best());
    encoder.write_all(source.as_bytes()).expect("writing to an in-memory buffer cannot fail");
    encoder.finish().expect("finishing an in-memory buffer cannot fail")
}

/// Encodes one six-bit value in PlantUML's URL alphabet.
pub fn encode_six_bits(value: u8) -> (c: char)
    requires
        value < 64,
    ensures
        c == six_bit_char(value as int),
        is_url_alphabet_char(c),
{
    if value <= 9 {
        ((48u8 + value) as char)
    } else if value <= 35 {
        ((55u8 + value) as char)
    } else if value <= 61 {
        ((61u8 + value) as char)
    } else if value == 62 {
        '-'
    } else {
        '_'
    }
}

/// Encodes three bytes as four characters of PlantUML's URL alphabet.
pub fn encode_triplet(first: u8, second: u8, third: u8) -> (encoded: String)
    ensures
        encoded@ == triplet_chars(first as int, second as int, third as int),
{
    let c1 = first >> 2;
    let c2 = ((first & 0x3) << 4) | (second >> 4);
    let c3 = ((second & 0xF) << 2) | (third >> 6);
    let c4 = third & 0x3F;
    assert(c1 == first / 4 && c1 < 64) by (bit_vector)
        requires
            c1 == first >> 2,
    ;
    assert(c2 == (first % 4) * 16 + second / 16 && c2 < 64) by (bit_vector)
        requires
            c2 == ((first & 0x3) << 4) | (second >> 4),
    ;
    assert(c3 == (second % 16) * 4 + third / 64 && c3 < 64) by (bit_vector)
        requires
            c3 == ((second & 0xF) << 2) | (third >> 6),
    ;
    assert(c4 == third % 64 && c4 < 64) by (bit_vector)
        requires
            c4 == third & 0x3F,
    ;
    let mut encoded = String::new();
    push_char(&mut encoded, encode_six_bits(c1));
    push_char(&mut encoded, encode_six_bits(c2));
    push_char(&mut encoded, encode_six_bits(c3));
    push_char(&mut encoded, encode_six_bits(c4));
    assert(encoded@ =~= triplet_chars(first as int, second as int, third as int));
    encoded
}

/// Encodes compressed bytes in PlantUML's text encoding.
pub fn encode_bytes(compressed: &[u8]) -> (encoded: String)
    ensures
        encoded@ == encoded_text(compressed@),
{
    let mut encoded = String::new();
    let mut index: usize = 0;
    assert(compressed@.skip(0) =~= compressed@);
    while index < compressed.len()
        invariant
            index <= compressed@.len() || (compressed@.len() == 0 && index == 0),
            index < compressed@.len() ==> encoded_text(compressed@) == encoded@ + encoded_text(
                compressed@.skip(index as int),
            ),
            index >= compressed@.len() ==> encoded@ == encoded_text(compressed@),
        decreases compressed@.len() - index,
    {
        let ghost rest = compressed@.skip(index as int);
        let first = compressed[index];
        let second = if compressed.len() - index > 1 { compressed[index + 1] } else { 0 };
        let third = if compressed.len() - index > 2 { compressed[index + 2] } else { 0 };
        let triplet = encode_triplet(first, second, third);
        encoded.append(triplet.as_str());
        if compressed.len() - index <= 3 {
            index = compressed.len();
        } else {
            assert(rest.skip(3) =~= compressed@.skip(index + 3));
            index = index + 3;
        }
    }
    encoded
}

/// The path that a PlantUML server answers with an SVG rendering of a diagram source.
pub open spec fn svg_url_text(server: Seq<char>, source: Seq<char>) -> Seq<char> {
    server + "/svg/"@ + encoded_text(deflated(source))
}

/// The SVG URL of a diagram source on a given PlantUML server.
pub fn server_svg_url(server: &str, source: &str) -> (url: String)
    ensures
        url@ == svg_url_text(server@, source@),
{
    let compressed = deflate_best(source);
    let encoded = encode_bytes(compressed.as_slice());
    let mut url = String::new();
    url.append(server);
    url.append("/svg/");
    url.append(encoded.as_str());
    assert(url@ =~= svg_url_text(server@, source@));
    url
}

/// The SVG URL of a diagram source on the public PlantUML server.
pub fn svg_url(source: &str) -> (url: String)
    ensures
        url@ == svg_url_text(PUBLIC_SERVER@, source@),
{
    server_svg_url(PUBLIC_SERVER, source)
}

} // verus!

verus! {

/// Whether a viewing session asks a PlantUML server for diagram images.
#[derive(Clone, Copy, Debug, PartialEq, Eq)]
pub enum RendererMode {
    Public,
    Disabled,
}

/// The diagram rendering choice of a viewing session.
#[derive(Clone, Copy, Debug)]
pub struct DiagramRenderer {
    pub mode: RendererMode,
}

impl DiagramRenderer {
    pub open spec fn is_enabled_spec(&self) -> bool {
        self.mode == RendererMode::Public
    }

    /// A renderer in the given mode.
    pub fn from_mode(mode: RendererMode) -> (renderer: Self)
        ensures
            renderer.mode == mode,
    {
        DiagramRenderer { mode }
    }

    /// Whether diagrams are rendered.
    pub fn is_enabled(&self) -> (enabled: bool)
        ensures
            enabled == self.is_enabled_spec(),
    {
        match self.mode {
            RendererMode::Public => true,
            RendererMode::Disabled => false,
        }
    }

    /// The name of the renderer shown to the reader.
    pub fn label(&self) -> (label: &'static str)
        ensures
            label@ == (if self.is_enabled_spec() {
                "public"@
            } else {
                "disabled"@
            }),
    {
        match self.mode {
            RendererMode::Public => "public",
            RendererMode::Disabled => "disabled",
        }
    }
}

/// A text without the `/` characters at its end.
pub open spec fn without_trailing_slashes(s: Seq<char>) -> Seq<char>
    decreases s.len(),
{
    if s.len() > 0 && s.last() == '/' {
        without_trailing_slashes(s.drop_last())
    } else {
        s
    }
}

/// The PlantUML server a session uses for a configured value: the value without surrounding
/// whitespace and trailing `/` characters, or the public server where nothing is left or
/// nothing is configured.
pub open spec fn configured_server(value: Option<Seq<char>>) -> Seq<char> {
    match value {
        Some(v) => {
            let base = without_trailing_slashes(crate::text::trimmed(v));
            if base.len() == 0 {
                PUBLIC_SERVER@
            } else {
                base
            }
        },
        None => PUBLIC_SERVER@,
    }
}

/// The PlantUML server a session uses for a configured value.
pub fn server_from_value(value: Option<&str>) -> (server: String)
    ensures
        server@ == configured_server(
            match value {
                Some(v) => Some(v@),
                None => None,
            },
        ),
{
    match value {
        Some(v) => {
            let chars = crate::text::chars_of(v);
            let (from, to) = crate::text::trim_bounds(chars.as_slice());
            let ghost trimmed_text = chars@.subrange(from as int, to as int);
            let mut end = to;
            assert(chars@.subrange(from as int, end as int) =~= trimmed_text);
            while end > from && chars[end - 1] == '/'
                invariant
                    from <= end <= to <= chars@.len(),
                    trimmed_text == chars@.subrange(from as int, to as int),
                    without_trailing_slashes(trimmed_text) == without_trailing_slashes(
                        chars@.subrange(from as int, end as int),
                    ),
                decreases end,
            {
                assert(chars@.subrange(from as int, end as int).drop_last() =~= chars@.subrange(
                    from as int,
                    end - 1,
                ));
                end = end - 1;
            }
            proof {
                let rest = chars@.subrange(from as int, end as int);
                if rest.len() > 0 {
                    assert(rest.last() == chars@[end - 1]);
                }
                assert(without_trailing_slashes(rest) == rest);
            }
            if end == from {
                PUBLIC_SERVER.to_owned()
            } else {
                crate::text::string_of_range(chars.as_slice(), from, end)
            }
        },
        None => PUBLIC_SERVER.to_owned(),
    }
}

} // verus!
