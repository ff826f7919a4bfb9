use vstd::prelude::*;

use crate::events::{events_html, link_pairs, markdown_events, EventKind, MarkdownEvent, MarkdownTag, TagKind, parse_markdown, pushed_html, rewrite_all, rewrite_events};
use crate::frontmatter::{closing_delimiter_from, line_next, opens_frontmatter, split_frontmatter, Frontmatter};
use crate::metadata::{frontmatter_error, frontmatter_error_text, read_yaml, yaml_block_html, yaml_block_text, yaml_reading};
use crate::paths::{relative_target, resolve_relative};
use crate::plantuml::DiagramRenderer;
use crate::text::{
    chars_of, decimal_text, equal_ignoring_ascii_case, push_char, push_decimal,
    range_equals_ignoring_ascii_case, string_of, string_of_range,
};

verus! {

/// One PlantUML diagram of a rendered document, by its source.
#[derive(Clone, Debug)]
pub struct Diagram {
    pub source: String,
}

/// A document rendered to HTML, with the diagrams that its placeholders refer to by position.
#[derive(Debug)]
pub struct RenderedDocument {
    pub html: String,
    pub diagrams: Vec<Diagram>,
}

/// The HTML text that stands for one character: the five characters that carry meaning in
/// markup become character references, every other character stands for itself.
pub open spec fn escaped_char(c: char) -> Seq<char> {
    if c == '&' {
        "&amp;"@
    } else if c == '<' {
        "&lt;"@
    } else if c == '>' {
        "&gt;"@
    } else if c == '"' {
        "&quot;"@
    } else if c == '\'' {
        "&#x27;"@
    } else {
        seq![c]
    }
}

/// The HTML text of a plain text: each character escaped in turn.
pub open spec fn escaped(s: Seq<char>) -> Seq<char>
    decreases s.len(),
{
    if s.len() == 0 {
        Seq::empty()
    } else {
        escaped(s.drop_last()) + escaped_char(s.last())
    }
}

/// Appends the HTML text of a plain text.
pub fn push_escaped(out: &mut String, value: &str)
    ensures
        final(out)@ == old(out)@ + escaped(value@),
{
    let ghost start = out@;
    for character in it: value.chars()
        invariant
            it.seq() == value@,
            out@ == start + escaped(value@.take(it.index() as int)),
    {
        proof {
            assert(value@.take(it.index() + 1).drop_last() =~= value@.take(it.index() as int));
        }
        if character == '&' {
            out.append("&amp;");
        } else if character == '<' {
            out.append("&lt;");
        } else if character == '>' {
            out.append("&gt;");
        } else if character == '"' {
            out.append("&quot;");
        } else if character == '\'' {
            out.append("&#x27;");
        } else {
            push_char(out, character);
        }
        proof {
            assert(out@ =~= start + escaped(value@.take(it.index() + 1)));
        }
    }
    proof {
        assert(value@.take(value@.len() as int) =~= value@);
    }
}

/// Escapes a plain text for HTML.
pub fn escape_html(value: &str) -> (escaped_value: String)
    ensures
        escaped_value@ == escaped(value@),
{
    let mut escaped_value = String::new();
    push_escaped(&mut escaped_value, value);
    assert(escaped_value@ =~= escaped(value@));
    escaped_value
}

/// Escaped text holds none of the characters that open or close markup or quote an attribute.
pub proof fn lemma_escaped_has_no_markup(s: Seq<char>)
    ensures
        forall|i: int|
            0 <= i < escaped(s).len() ==> {
                let c = #[trigger] escaped(s)[i];
                c != '<' && c != '>' && c != '"' && c != '\''
            },
    decreases s.len(),
{
    reveal_strlit("&amp;");
    reveal_strlit("&lt;");
    reveal_strlit("&gt;");
    reveal_strlit("&quot;");
    reveal_strlit("&#x27;");
    if s.len() > 0 {
        lemma_escaped_has_no_markup(s.drop_last());
        let prefix = escaped(s.drop_last());
        let tail = escaped_char(s.last());
        assert forall|i: int| 0 <= i < escaped(s).len() implies {
            let c = #[trigger] escaped(s)[i];
            c != '<' && c != '>' && c != '"' && c != '\''
        } by {
            if i < prefix.len() {
                assert(escaped(s)[i] == prefix[i]);
            } else {
                assert(escaped(s)[i] == tail[i - prefix.len()]);
            }
        }
    }
}

/// The figure that stands for a diagram in a rendered document: the image request (only while
/// rendering is enabled), the failure and disabled notices, a retry control, and the escaped
/// source.
pub open spec fn placeholder_text(
    document_id: nat,
    diagram_id: nat,
    source: Seq<char>,
    rendering_enabled: bool,
) -> Seq<char> {
    let image = if rendering_enabled {
        "<img src=\"/diagrams/"@ + decimal_text(document_id) + "/"@ + decimal_text(diagram_id)
            + "\" alt=\"Rendered PlantUML diagram\" data-diagram>"@
    } else {
        Seq::empty()
    };
    let disabled_status = if rendering_enabled {
        " hidden"@
    } else {
        Seq::empty()
    };
    "<figure class=\"diagram\" data-diagram-container>"@ + image
        + "<p class=\"diagram-error\" hidden>PlantUML rendering failed. The source is shown below.</p><p class=\"diagram-disabled\" data-diagram-disabled"@
        + disabled_status
        + ">PlantUML rendering is disabled for this viewing session.</p><button type=\"button\" data-diagram-retry hidden>Retry diagram rendering</button><details class=\"diagram-source\"><summary>PlantUML source</summary><pre><code>"@
        + escaped(source) + "</code></pre></details></figure>"@
}

/// Appends the figure that stands for a diagram.
pub fn push_diagram_placeholder(
    out: &mut String,
    document_id: usize,
    diagram_id: usize,
    source: &str,
    rendering_enabled: bool,
)
    ensures
        final(out)@ == old(out)@ + placeholder_text(
            document_id as nat,
            diagram_id as nat,
            source@,
            rendering_enabled,
        ),
{
    let ghost start = out@;
    out.append("<figure class=\"diagram\" data-diagram-container>");
    if rendering_enabled {
        out.append("<img src=\"/diagrams/");
        push_decimal(out, document_id as u64);
        out.append("/");
        push_decimal(out, diagram_id as u64);
        out.append("\" alt=\"Rendered PlantUML diagram\" data-diagram>");
    }
    out.append(
        "<p class=\"diagram-error\" hidden>PlantUML rendering failed. The source is shown below.</p><p class=\"diagram-disabled\" data-diagram-disabled",
    );
    if rendering_enabled {
        out.append(" hidden");
    }
    out.append(
        ">PlantUML rendering is disabled for this viewing session.</p><button type=\"button\" data-diagram-retry hidden>Retry diagram rendering</button><details class=\"diagram-source\"><summary>PlantUML source</summary><pre><code>",
    );
    push_escaped(out, source);
    out.append("</code></pre></details></figure>");
    assert(out@ =~= start + placeholder_text(
        document_id as nat,
        diagram_id as nat,
        source@,
        rendering_enabled,
    ));
}

/// The figure that stands for a diagram.
pub fn diagram_placeholder(
    document_id: usize,
    diagram_id: usize,
    source: &str,
    rendering_enabled: bool,
) -> (html: String)
    ensures
        html@ == placeholder_text(document_id as nat, diagram_id as nat, source@, rendering_enabled),
{
    let mut html = String::new();
    push_diagram_placeholder(&mut html, document_id, diagram_id, source, rendering_enabled);
    assert(html@ =~= placeholder_text(
        document_id as nat,
        diagram_id as nat,
        source@,
        rendering_enabled,
    ));
    html
}

/// The page body of a standalone PlantUML file: a notice followed by its one diagram.
pub open spec fn standalone_text(document_id: nat, source: Seq<char>, rendering_enabled: bool) -> Seq<
    char,
> {
    "<p class=\"standalone-plantuml\">Standalone PlantUML file.</p>"@ + placeholder_text(
        document_id,
        0,
        source,
        rendering_enabled,
    )
}

/// Renders a standalone PlantUML file as a document with one diagram, the whole file.
pub fn render_standalone_plantuml(document_id: usize, source: &str, renderer: &DiagramRenderer) -> (document: RenderedDocument)
    ensures
        document.html@ == standalone_text(document_id as nat, source@, renderer.is_enabled_spec()),
        document.diagrams@.len() == 1,
        document.diagrams@[0].source@ == source@,
{
    let mut html = String::new();
    html.append("<p class=\"standalone-plantuml\">Standalone PlantUML file.</p>");
    push_diagram_placeholder(&mut html, document_id, 0, source, renderer.is_enabled());
    assert(html@ =~= standalone_text(document_id as nat, source@, renderer.is_enabled_spec()));
    let mut diagrams: Vec<Diagram> = Vec::new();
    diagrams.push(Diagram { source: source.to_owned() });
    RenderedDocument { html, diagrams }
}


/// Where the query or fragment of a link destination starts: its first `#` or `?`, or its end.
pub open spec fn suffix_start(destination: Seq<char>) -> int
    decreases destination.len(),
{
    if destination.len() == 0 {
        0
    } else {
        let before = suffix_start(destination.drop_last());
        if before < destination.len() - 1 {
            before
        } else if destination.last() == '#' || destination.last() == '?' {
            destination.len() - 1
        } else {
            destination.len() as int
        }
    }
}

pub proof fn lemma_suffix_start(destination: Seq<char>)
    ensures
        0 <= suffix_start(destination) <= destination.len(),
        forall|i: int|
            0 <= i < suffix_start(destination) ==> destination[i] != '#' && destination[i] != '?',
        suffix_start(destination) < destination.len() ==> (destination[suffix_start(destination)]
            == '#' || destination[suffix_start(destination)] == '?'),
    decreases destination.len(),
{
    if destination.len() > 0 {
        let prefix = destination.drop_last();
        lemma_suffix_start(prefix);
        assert forall|i: int| 0 <= i < suffix_start(destination) implies destination[i] != '#'
            && destination[i] != '?' by {
            if i < prefix.len() {
                assert(prefix[i] == destination[i]);
            }
        }
    }
}

/// The index of the last `.` of a text.
pub open spec fn last_dot(path: Seq<char>) -> Option<int>
    decreases path.len(),
{
    if path.len() == 0 {
        None
    } else if path.last() == '.' {
        Some(path.len() - 1)
    } else {
        last_dot(path.drop_last())
    }
}

/// Whether a path names a document the viewer shows: its text after the last `.` is `md`,
/// `markdown` or `puml`, in any ASCII case.
pub open spec fn is_markdown_path_spec(path: Seq<char>) -> bool {
    match last_dot(path) {
        Some(dot) => {
            let extension = path.skip(dot + 1);
            equal_ignoring_ascii_case(extension, seq!['m', 'd']) || equal_ignoring_ascii_case(
                extension,
                seq!['m', 'a', 'r', 'k', 'd', 'o', 'w', 'n'],
            ) || equal_ignoring_ascii_case(extension, seq!['p', 'u', 'm', 'l'])
        },
        None => false,
    }
}

/// The document identifier that a relative Markdown link reaches from the current document;
/// none for an absolute path or one with a backslash.
pub open spec fn linked_document(current: Seq<char>, path: Seq<char>) -> Option<Seq<char>> {
    if (path.len() > 0 && path[0] == '/') || path.contains('\\') {
        None
    } else {
        relative_target(current, path)
    }
}

/// Where a link of the current document leads in the viewer: a relative link to a known
/// Markdown or PlantUML document becomes that document's route, with its query or fragment kept; any other
/// link keeps its destination.
pub open spec fn resolved_link(
    destination: Seq<char>,
    current: Seq<char>,
    known: Seq<Seq<char>>,
) -> Seq<char> {
    let split = suffix_start(destination);
    let path = destination.take(split);
    let suffix = destination.skip(split);
    if path.len() == 0 || !is_markdown_path_spec(path) {
        destination
    } else {
        match linked_document(current, path) {
            Some(candidate) => if known.contains(candidate) {
                "/documents/"@ + candidate + suffix
            } else {
                destination
            },
            None => destination,
        }
    }
}

fn find_suffix_start(destination: &[char]) -> (split: usize)
    ensures
        split == suffix_start(destination@),
{
    proof {
        lemma_suffix_start(destination@);
    }
    let mut index: usize = 0;
    while index < destination.len()
        invariant
            index <= destination@.len(),
            forall|i: int| 0 <= i < index ==> destination@[i] != '#' && destination@[i] != '?',
        decreases destination@.len() - index,
    {
        if destination[index] == '#' || destination[index] == '?' {
            proof {
                lemma_suffix_start_is_first(destination@, index as int);
            }
            return index;
        }
        index = index + 1;
    }
    proof {
        lemma_suffix_start_is_first(destination@, index as int);
    }
    index
}

proof fn lemma_suffix_start_is_first(destination: Seq<char>, index: int)
    requires
        0 <= index <= destination.len(),
        forall|i: int| 0 <= i < index ==> destination[i] != '#' && destination[i] != '?',
        index == destination.len() || destination[index] == '#' || destination[index] == '?',
    ensures
        suffix_start(destination) == index,
{
    lemma_suffix_start(destination);
}

/// Whether a path names a Markdown or PlantUML document by its extension.
pub fn is_markdown_path(path: &[char]) -> (markdown: bool)
    ensures
        markdown == is_markdown_path_spec(path@),
{
    let mut index: usize = path.len();
    assert(path@.take(path@.len() as int) =~= path@);
    while index > 0 && path[index - 1] != '.'
        invariant
            index <= path@.len(),
            last_dot(path@) == last_dot(path@.take(index as int)),
        decreases index,
    {
        assert(path@.take(index as int).drop_last() =~= path@.take(index - 1));
        index = index - 1;
    }
    if index == 0 {
        assert(path@.take(0) =~= Seq::<char>::empty());
        return false;
    }
    assert(last_dot(path@.take(index as int)) == Some(index - 1));
    let md = ['m', 'd'];
    let markdown = ['m', 'a', 'r', 'k', 'd', 'o', 'w', 'n'];
    let puml = ['p', 'u', 'm', 'l'];
    assert(md@ =~= seq!['m', 'd']);
    assert(markdown@ =~= seq!['m', 'a', 'r', 'k', 'd', 'o', 'w', 'n']);
    assert(puml@ =~= seq!['p', 'u', 'm', 'l']);
    assert(path@.subrange(index as int, path@.len() as int) =~= path@.skip(index as int));
    range_equals_ignoring_ascii_case(path, index, path.len(), &md)
        || range_equals_ignoring_ascii_case(path, index, path.len(), &markdown)
        || range_equals_ignoring_ascii_case(path, index, path.len(), &puml)
}

/// The document identifier a relative link reaches from the current document.
pub fn normalize_document_path(current_document: &[char], destination: &[char]) -> (candidate: Option<Vec<char>>)
    ensures
        candidate matches Some(c) ==> linked_document(current_document@, destination@) == Some(c@),
        candidate is None ==> linked_document(current_document@, destination@) is None,
{
    if destination.len() > 0 && destination[0] == '/' {
        return None;
    }
    let mut index: usize = 0;
    while index < destination.len()
        invariant
            index <= destination@.len(),
            forall|i: int| 0 <= i < index ==> destination@[i] != '\\',
        decreases destination@.len() - index,
    {
        if destination[index] == '\\' {
            assert(destination@.contains('\\'));
            return None;
        }
        index = index + 1;
    }
    assert(!destination@.contains('\\'));
    resolve_relative(current_document, destination)
}

/// Whether a list of known identifiers holds a given one.
pub fn known_contains(known: &[String], candidate: &String) -> (found: bool)
    ensures
        found == known@.map_values(|k: String| k@).contains(candidate@),
{
    let ghost identifiers = known@.map_values(|k: String| k@);
    let mut index: usize = 0;
    while index < known.len()
        invariant
            index <= known@.len(),
            identifiers == known@.map_values(|k: String| k@),
            forall|i: int| 0 <= i < index ==> identifiers[i] != candidate@,
        decreases known@.len() - index,
    {
        if known[index] == *candidate {
            assert(identifiers[index as int] == candidate@);
            return true;
        }
        index = index + 1;
    }
    false
}

/// Where a link of the current document leads in the viewer.
pub fn resolve_document_link(destination: &str, current_document: &str, known_documents: &[String]) -> (resolved: String)
    ensures
        resolved@ == resolved_link(
            destination@,
            current_document@,
            known_documents@.map_values(|k: String| k@),
        ),
{
    let chars = chars_of(destination);
    let split = find_suffix_start(chars.as_slice());
    proof {
        lemma_suffix_start(destination@);
    }
    let path = string_of_range(chars.as_slice(), 0, split);
    let path_chars = chars_of(path.as_str());
    assert(path_chars@ =~= destination@.take(split as int));
    if split == 0 || !is_markdown_path(path_chars.as_slice()) {
        return destination.to_owned();
    }
    let current = chars_of(current_document);
    match normalize_document_path(current.as_slice(), path_chars.as_slice()) {
        Some(candidate) => {
            let candidate_text = string_of(candidate.as_slice());
            if known_contains(known_documents, &candidate_text) {
                let mut resolved = String::new();
                resolved.append("/documents/");
                resolved.append(candidate_text.as_str());
                let suffix = string_of_range(chars.as_slice(), split, chars.len());
                resolved.append(suffix.as_str());
                assert(destination@.skip(split as int) =~= destination@.subrange(
                    split as int,
                    destination@.len() as int,
                ));
                assert(resolved@ =~= resolved_link(
                    destination@,
                    current_document@,
                    known_documents@.map_values(|k: String| k@),
                ));
                resolved
            } else {
                destination.to_owned()
            }
        },
        None => destination.to_owned(),
    }
}


/// The problem shown for frontmatter that opens without closing.
pub open spec fn unclosed_frontmatter_problem() -> Seq<char> {
    "A closing `---` or `...` delimiter is required."@
}

/// The HTML shown before a document's body for its frontmatter: nothing without frontmatter,
/// the reading of a closed block, and a notice for an unclosed one.
pub open spec fn frontmatter_text(markdown: Seq<char>) -> Seq<char> {
    if !opens_frontmatter(markdown) {
        Seq::empty()
    } else {
        match closing_delimiter_from(markdown, line_next(markdown, 0)) {
            Some((position, _)) => yaml_block_text(
                yaml_reading(markdown.subrange(line_next(markdown, 0), position)),
            ),
            None => frontmatter_error_text(unclosed_frontmatter_problem()),
        }
    }
}

/// The part of a document rendered as Markdown: what follows closed frontmatter, or the whole
/// document.
pub open spec fn markdown_body(markdown: Seq<char>) -> Seq<char> {
    if !opens_frontmatter(markdown) {
        markdown
    } else {
        match closing_delimiter_from(markdown, line_next(markdown, 0)) {
            Some((_, after)) => markdown.subrange(after, markdown.len() as int),
            None => markdown,
        }
    }
}

/// Renders a Markdown document: its frontmatter as metadata, PlantUML fences as diagram
/// figures, relative links to known documents as viewer routes, links with a VS Code link
/// given as that link with a note, and raw HTML as text.
pub fn render(
    markdown: &str,
    document_id: usize,
    current_document: &str,
    known_documents: &[String],
    source_links: &[(String, String)],
    renderer: &DiagramRenderer,
) -> (document: RenderedDocument)
    ensures
        document.html@ == frontmatter_text(markdown@) + pushed_html(
            rewrite_all(
                markdown_events(markdown_body(markdown@)),
                document_id as nat,
                current_document@,
                known_documents@.map_values(|k: String| k@),
                link_pairs(source_links@),
                renderer.is_enabled_spec(),
            ).events,
        ),
        document.diagrams@.map_values(|d: Diagram| d.source@) == rewrite_all(
            markdown_events(markdown_body(markdown@)),
            document_id as nat,
            current_document@,
            known_documents@.map_values(|k: String| k@),
            link_pairs(source_links@),
            renderer.is_enabled_spec(),
        ).diagrams,
{
    let split = split_frontmatter(markdown);
    let (body, mut html) = match split {
        Frontmatter::Absent => (markdown.to_owned(), String::new()),
        Frontmatter::Closed { source, body } => {
            let reading = read_yaml(source.as_str());
            (body, yaml_block_html(&reading))
        },
        Frontmatter::Unclosed => (
            markdown.to_owned(),
            frontmatter_error("A closing `---` or `...` delimiter is required."),
        ),
    };
    assert(html@ == frontmatter_text(markdown@));
    assert(body@ == markdown_body(markdown@));
    let events = parse_markdown(body.as_str());
    let (rewritten, diagrams) = rewrite_events(
        events,
        document_id,
        current_document,
        known_documents,
        source_links,
        renderer,
    );
    let events_part = events_html(rewritten);
    html.append(events_part.as_str());
    RenderedDocument { html, diagrams }
}

/// The destinations of the links among events, in order.
pub open spec fn link_destinations_of(events: Seq<EventKind>) -> Seq<Seq<char>>
    decreases events.len(),
{
    if events.len() == 0 {
        Seq::empty()
    } else {
        let earlier = link_destinations_of(events.drop_last());
        match events.last() {
            EventKind::Start(TagKind::Link(_, destination, _)) => earlier.push(destination),
            _ => earlier,
        }
    }
}

/// The destinations of the links in the body of a Markdown document, in order: those that may
/// lead to source files.
pub fn link_destinations(markdown: &str) -> (destinations: Vec<String>)
    ensures
        destinations@.map_values(|d: String| d@) == link_destinations_of(
            markdown_events(markdown_body(markdown@)),
        ),
{
    let body = match split_frontmatter(markdown) {
        Frontmatter::Closed { body, .. } => body,
        _ => markdown.to_owned(),
    };
    assert(body@ == markdown_body(markdown@));
    let events = parse_markdown(body.as_str());
    let ghost kinds = events@.map_values(|e: MarkdownEvent| e.kind());
    let mut destinations: Vec<String> = Vec::new();
    let mut index: usize = 0;
    while index < events.len()
        invariant
            index <= events@.len(),
            kinds == events@.map_values(|e: MarkdownEvent| e.kind()),
            destinations@.map_values(|d: String| d@) == link_destinations_of(kinds.take(index as int)),
        decreases events@.len() - index,
    {
        proof {
            assert(kinds.take(index + 1).drop_last() =~= kinds.take(index as int));
        }
        match &events[index] {
            MarkdownEvent::Start(MarkdownTag::Link(_, destination, _)) => {
                destinations.push(destination.clone());
            },
            _ => {},
        }
        index = index + 1;
        assert(destinations@.map_values(|d: String| d@) =~= link_destinations_of(kinds.take(index as int)));
    }
    assert(kinds.take(index as int) =~= kinds);
    destinations
}

proof fn lemma_last_dot_at(path: Seq<char>, dot: int)
    requires
        0 <= dot < path.len(),
        path[dot] == '.',
        forall|k: int| dot < k < path.len() ==> path[k] != '.',
    ensures
        last_dot(path) == Some(dot),
    decreases path.len(),
{
    if dot < path.len() - 1 {
        lemma_last_dot_at(path.drop_last(), dot);
    }
}

proof fn lemma_no_dot(path: Seq<char>)
    requires
        forall|k: int| 0 <= k < path.len() ==> path[k] != '.',
    ensures
        last_dot(path) is None,
    decreases path.len(),
{
    if path.len() > 0 {
        lemma_no_dot(path.drop_last());
    }
}

/// A path names a document the viewer shows exactly when its text after its last `.` is `md`,
/// `markdown` or `puml`, in any ASCII case; a path without a `.` names none.
pub proof fn lemma_document_extension(path: Seq<char>, dot: int)
    requires
        0 <= dot < path.len(),
        path[dot] == '.',
        forall|k: int| dot < k < path.len() ==> path[k] != '.',
    ensures
        is_markdown_path_spec(path) == (equal_ignoring_ascii_case(path.skip(dot + 1), seq!['m', 'd'])
            || equal_ignoring_ascii_case(
            path.skip(dot + 1),
            seq!['m', 'a', 'r', 'k', 'd', 'o', 'w', 'n'],
        ) || equal_ignoring_ascii_case(path.skip(dot + 1), seq!['p', 'u', 'm', 'l'])),
{
    lemma_last_dot_at(path, dot);
}

/// A path without a `.` names no document the viewer shows.
pub proof fn lemma_no_extension(path: Seq<char>)
    requires
        forall|k: int| 0 <= k < path.len() ==> path[k] != '.',
    ensures
        !is_markdown_path_spec(path),
{
    lemma_no_dot(path);
}

/// A relative link to a known document whose extension is `md`, `markdown` or `puml`, in any
/// ASCII case, leads to that document's route, with the link's query or fragment kept.
pub proof fn lemma_known_document_link(
    path: Seq<char>,
    suffix: Seq<char>,
    dot: int,
    current: Seq<char>,
    known: Seq<Seq<char>>,
)
    requires
        forall|k: int| 0 <= k < path.len() ==> path[k] != '#' && path[k] != '?',
        suffix.len() == 0 || suffix[0] == '#' || suffix[0] == '?',
        0 <= dot < path.len(),
        path[dot] == '.',
        forall|k: int| dot < k < path.len() ==> path[k] != '.',
        equal_ignoring_ascii_case(path.skip(dot + 1), seq!['m', 'd']) || equal_ignoring_ascii_case(
            path.skip(dot + 1),
            seq!['m', 'a', 'r', 'k', 'd', 'o', 'w', 'n'],
        ) || equal_ignoring_ascii_case(path.skip(dot + 1), seq!['p', 'u', 'm', 'l']),
        linked_document(current, path) matches Some(candidate) && known.contains(candidate),
    ensures
        resolved_link(path + suffix, current, known) == "/documents/"@ + linked_document(
            current,
            path,
        ).unwrap() + suffix,
{
    let destination = path + suffix;
    lemma_suffix_start(destination);
    let split = suffix_start(destination);
    if split < path.len() {
        assert(destination[split] == path[split]);
    }
    if split > path.len() {
        assert(destination[path.len() as int] == suffix[0]);
    }
    assert(split == path.len());
    assert(destination.take(split) =~= path);
    assert(destination.skip(split) =~= suffix);
    lemma_last_dot_at(path, dot);
}

} // verus!
