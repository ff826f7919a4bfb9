use pulldown_cmark::{html, Alignment, CodeBlockKind, Event, HeadingLevel, LinkType, Options, Parser, Tag};
use vstd::prelude::*;

use crate::markdown::{placeholder_text, push_diagram_placeholder, resolve_document_link, resolved_link, Diagram};
use crate::plantuml::DiagramRenderer;
use crate::text::{
    chars_equal, chars_of, equal_ignoring_ascii_case, push_char, range_equals_ignoring_ascii_case, trim_bounds,
    trimmed,
};

verus! {

#[verifier::external_type_specification]
#[verifier::external_body]
pub struct ExEvent<'a>(Event<'a>);

#[verifier::external_type_specification]
#[verifier::external_body]
pub struct ExTag<'a>(Tag<'a>);

#[verifier::external_type_specification]
#[verifier::external_body]
pub struct ExLinkType(LinkType);

#[verifier::external_type_specification]
#[verifier::external_body]
pub struct ExHeadingLevel(HeadingLevel);

#[verifier::external_type_specification]
#[verifier::external_body]
pub struct ExAlignment(Alignment);

/// How a link was written.
#[derive(Clone, Copy, Debug, PartialEq, Eq, Structural)]
pub enum LinkKind {
    Inline,
    Reference,
    ReferenceUnknown,
    Collapsed,
    CollapsedUnknown,
    Shortcut,
    ShortcutUnknown,
    Autolink,
    Email,
}

/// The level of a heading.
#[derive(Clone, Copy, Debug, PartialEq, Eq, Structural)]
pub enum HeadingRank {
    H1,
    H2,
    H3,
    H4,
    H5,
    H6,
}

/// The alignment of a table column.
#[derive(Clone, Copy, Debug, PartialEq, Eq, Structural)]
pub enum ColumnAlignment {
    Unaligned,
    Left,
    Center,
    Right,
}

/// A block or inline element that a Markdown event opens or closes, with all that it holds.
pub enum MarkdownTag<'a> {
    Paragraph,
    /// A heading: its level, its `id` attribute and its classes.
    Heading(HeadingRank, Option<&'a str>, Vec<&'a str>),
    BlockQuote,
    /// A code block: the info string of a fenced block, none for an indented one.
    CodeBlock(Option<String>),
    /// A list: the number of its first item where it is ordered.
    List(Option<u64>),
    Item,
    FootnoteDefinition(String),
    Table(Vec<ColumnAlignment>),
    TableHead,
    TableRow,
    TableCell,
    Emphasis,
    Strong,
    Strikethrough,
    /// A link: how it was written, its destination and its title.
    Link(LinkKind, String, String),
    /// An image: how it was written, its source and its title.
    Image(LinkKind, String, String),
}

/// One event of a parsed Markdown document, with all that it holds.
pub enum MarkdownEvent<'a> {
    Start(MarkdownTag<'a>),
    End(MarkdownTag<'a>),
    Text(String),
    /// Inline code.
    Code(String),
    /// Raw HTML written in the document.
    Html(String),
    FootnoteReference(String),
    SoftBreak,
    HardBreak,
    Rule,
    TaskListMarker(bool),
}

/// A Markdown element as plain values.
pub enum TagKind {
    Paragraph,
    Heading(HeadingRank, Option<Seq<char>>, Seq<Seq<char>>),
    BlockQuote,
    CodeBlock(Option<Seq<char>>),
    List(Option<u64>),
    Item,
    FootnoteDefinition(Seq<char>),
    Table(Seq<ColumnAlignment>),
    TableHead,
    TableRow,
    TableCell,
    Emphasis,
    Strong,
    Strikethrough,
    Link(LinkKind, Seq<char>, Seq<char>),
    Image(LinkKind, Seq<char>, Seq<char>),
}

/// A Markdown event as plain values.
pub enum EventKind {
    Start(TagKind),
    End(TagKind),
    Text(Seq<char>),
    Code(Seq<char>),
    Html(Seq<char>),
    FootnoteReference(Seq<char>),
    SoftBreak,
    HardBreak,
    Rule,
    TaskListMarker(bool),
}

impl<'a> MarkdownTag<'a> {
    /// The element as plain values.
    pub open spec fn kind(&self) -> TagKind {
        match self {
            MarkdownTag::Paragraph => TagKind::Paragraph,
            MarkdownTag::Heading(rank, id, classes) => TagKind::Heading(
                *rank,
                match id {
                    Some(i) => Some(i@),
                    None => None,
                },
                classes@.map_values(|c: &'a str| c@),
            ),
            MarkdownTag::BlockQuote => TagKind::BlockQuote,
            MarkdownTag::CodeBlock(info) => TagKind::CodeBlock(
                match info {
                    Some(i) => Some(i@),
                    None => None,
                },
            ),
            MarkdownTag::List(first) => TagKind::List(*first),
            MarkdownTag::Item => TagKind::Item,
            MarkdownTag::FootnoteDefinition(name) => TagKind::FootnoteDefinition(name@),
            MarkdownTag::Table(alignments) => TagKind::Table(alignments@),
            MarkdownTag::TableHead => TagKind::TableHead,
            MarkdownTag::TableRow => TagKind::TableRow,
            MarkdownTag::TableCell => TagKind::TableCell,
            MarkdownTag::Emphasis => TagKind::Emphasis,
            MarkdownTag::Strong => TagKind::Strong,
            MarkdownTag::Strikethrough => TagKind::Strikethrough,
            MarkdownTag::Link(how, destination, title) => TagKind::Link(
                *how,
                destination@,
                title@,
            ),
            MarkdownTag::Image(how, source, title) => TagKind::Image(*how, source@, title@),
        }
    }
}

impl<'a> MarkdownEvent<'a> {
    /// The event as plain values.
    pub open spec fn kind(&self) -> EventKind {
        match self {
            MarkdownEvent::Start(tag) => EventKind::Start(tag.kind()),
            MarkdownEvent::End(tag) => EventKind::End(tag.kind()),
            MarkdownEvent::Text(text) => EventKind::Text(text@),
            MarkdownEvent::Code(text) => EventKind::Code(text@),
            MarkdownEvent::Html(text) => EventKind::Html(text@),
            MarkdownEvent::FootnoteReference(name) => EventKind::FootnoteReference(name@),
            MarkdownEvent::SoftBreak => EventKind::SoftBreak,
            MarkdownEvent::HardBreak => EventKind::HardBreak,
            MarkdownEvent::Rule => EventKind::Rule,
            MarkdownEvent::TaskListMarker(checked) => EventKind::TaskListMarker(*checked),
        }
    }
}

/// Converts pulldown-cmark's link type, variant by variant.
#[verifier::external_body]
fn link_kind_from(how: LinkType) -> LinkKind {
    match how {
        LinkType::Inline => LinkKind::Inline,
        LinkType::Reference => LinkKind::Reference,
        LinkType::ReferenceUnknown => LinkKind::ReferenceUnknown,
        LinkType::Collapsed => LinkKind::Collapsed,
        LinkType::CollapsedUnknown => LinkKind::CollapsedUnknown,
        LinkType::Shortcut => LinkKind::Shortcut,
        LinkType::ShortcutUnknown => LinkKind::ShortcutUnknown,
        LinkType::Autolink => LinkKind::Autolink,
        LinkType::Email => LinkKind::Email,
    }
}

/// Converts a link kind back into pulldown-cmark's link type, variant by variant.
#[verifier::external_body]
fn link_type_of(how: LinkKind) -> LinkType {
    match how {
        LinkKind::Inline => LinkType::Inline,
        LinkKind::Reference => LinkType::Reference,
        LinkKind::ReferenceUnknown => LinkType::ReferenceUnknown,
        LinkKind::Collapsed => LinkType::Collapsed,
        LinkKind::CollapsedUnknown => LinkType::CollapsedUnknown,
        LinkKind::Shortcut => LinkType::Shortcut,
        LinkKind::ShortcutUnknown => LinkType::ShortcutUnknown,
        LinkKind::Autolink => LinkType::Autolink,
        LinkKind::Email => LinkType::Email,
    }
}

/// Converts pulldown-cmark's heading level, variant by variant.
#[verifier::external_body]
fn rank_from(level: HeadingLevel) -> HeadingRank {
    match level {
        HeadingLevel::H1 => HeadingRank::H1,
        HeadingLevel::H2 => HeadingRank::H2,
        HeadingLevel::H3 => HeadingRank::H3,
        HeadingLevel::H4 => HeadingRank::H4,
        HeadingLevel::H5 => HeadingRank::H5,
        HeadingLevel::H6 => HeadingRank::H6,
    }
}

/// Converts a heading rank back into pulldown-cmark's heading level, variant by variant.
#[verifier::external_body]
fn level_of(rank: HeadingRank) -> HeadingLevel {
    match rank {
        HeadingRank::H1 => HeadingLevel::H1,
        HeadingRank::H2 => HeadingLevel::H2,
        HeadingRank::H3 => HeadingLevel::H3,
        HeadingRank::H4 => HeadingLevel::H4,
        HeadingRank::H5 => HeadingLevel::H5,
        HeadingRank::H6 => HeadingLevel::H6,
    }
}

/// Converts pulldown-cmark's column alignment, variant by variant.
#[verifier::external_body]
fn alignment_from(alignment: Alignment) -> ColumnAlignment {
    match alignment {
        Alignment::None => ColumnAlignment::Unaligned,
        Alignment::Left => ColumnAlignment::Left,
        Alignment::Center => ColumnAlignment::Center,
        Alignment::Right => ColumnAlignment::Right,
    }
}

/// Converts a column alignment back into pulldown-cmark's, variant by variant.
#[verifier::external_body]
fn alignment_of(alignment: ColumnAlignment) -> Alignment {
    match alignment {
        ColumnAlignment::Unaligned => Alignment::None,
        ColumnAlignment::Left => Alignment::Left,
        ColumnAlignment::Center => Alignment::Center,
        ColumnAlignment::Right => Alignment::Right,
    }
}

/// Converts one of pulldown-cmark's block elements, variant by variant; an inline element or a
/// table goes to `inline_tag_from`.
#[verifier::external_body]
fn block_tag_from<'a>(tag: Tag<'a>) -> MarkdownTag<'a> {
    match tag {
        Tag::Paragraph => MarkdownTag::Paragraph,
        Tag::Heading(level, id, classes) => MarkdownTag::Heading(rank_from(level), id, classes),
        Tag::BlockQuote => MarkdownTag::BlockQuote,
        Tag::CodeBlock(CodeBlockKind::Indented) => MarkdownTag::CodeBlock(None),
        Tag::CodeBlock(CodeBlockKind::Fenced(info)) => MarkdownTag::CodeBlock(Some(info.to_string())),
        Tag::List(first) => MarkdownTag::List(first),
        Tag::Item => MarkdownTag::Item,
        Tag::FootnoteDefinition(name) => MarkdownTag::FootnoteDefinition(name.to_string()),
        other => inline_tag_from(other),
    }
}

/// Converts one of pulldown-cmark's tables and inline elements, variant by variant; a block
/// element goes to `block_tag_from`.
#[verifier::external_body]
fn inline_tag_from<'a>(tag: Tag<'a>) -> MarkdownTag<'a> {
    match tag {
        Tag::Table(columns) => MarkdownTag::Table(columns.into_iter().map(alignment_from).collect()),
        Tag::TableHead => MarkdownTag::TableHead,
        Tag::TableRow => MarkdownTag::TableRow,
        Tag::TableCell => MarkdownTag::TableCell,
        Tag::Emphasis => MarkdownTag::Emphasis,
        Tag::Strong => MarkdownTag::Strong,
        Tag::Strikethrough => MarkdownTag::Strikethrough,
        Tag::Link(how, to, title) => MarkdownTag::Link(link_kind_from(how), to.to_string(), title.to_string()),
        Tag::Image(how, to, title) => MarkdownTag::Image(link_kind_from(how), to.to_string(), title.to_string()),
        other => block_tag_from(other),
    }
}

/// Converts a block element back into pulldown-cmark's, variant by variant; an inline element
/// or a table goes to `inline_tag_of`.
#[verifier::external_body]
fn block_tag_of<'a>(tag: MarkdownTag<'a>) -> Tag<'a> {
    match tag {
        MarkdownTag::Paragraph => Tag::Paragraph,
        MarkdownTag::Heading(rank, id, classes) => Tag::Heading(level_of(rank), id, classes),
        MarkdownTag::BlockQuote => Tag::BlockQuote,
        MarkdownTag::CodeBlock(None) => Tag::CodeBlock(CodeBlockKind::Indented),
        MarkdownTag::CodeBlock(Some(info)) => Tag::CodeBlock(CodeBlockKind::Fenced(info.into())),
        MarkdownTag::List(first) => Tag::List(first),
        MarkdownTag::Item => Tag::Item,
        MarkdownTag::FootnoteDefinition(name) => Tag::FootnoteDefinition(name.into()),
        other => inline_tag_of(other),
    }
}

/// Converts a table or inline element back into pulldown-cmark's, variant by variant; a block
/// element goes to `block_tag_of`.
#[verifier::external_body]
fn inline_tag_of<'a>(tag: MarkdownTag<'a>) -> Tag<'a> {
    match tag {
        MarkdownTag::Table(columns) => Tag::Table(columns.into_iter().map(alignment_of).collect()),
        MarkdownTag::TableHead => Tag::TableHead,
        MarkdownTag::TableRow => Tag::TableRow,
        MarkdownTag::TableCell => Tag::TableCell,
        MarkdownTag::Emphasis => Tag::Emphasis,
        MarkdownTag::Strong => Tag::Strong,
        MarkdownTag::Strikethrough => Tag::Strikethrough,
        MarkdownTag::Link(how, to, title) => Tag::Link(link_type_of(how), to.into(), title.into()),
        MarkdownTag::Image(how, to, title) => Tag::Image(link_type_of(how), to.into(), title.into()),
        other => block_tag_of(other),
    }
}

/// Converts one pulldown-cmark event, variant by variant.
#[verifier::external_body]
fn event_from<'a>(event: Event<'a>) -> MarkdownEvent<'a> {
    match event {
        Event::Start(tag) => MarkdownEvent::Start(block_tag_from(tag)),
        Event::End(tag) => MarkdownEvent::End(block_tag_from(tag)),
        Event::Text(text) => MarkdownEvent::Text(text.to_string()),
        Event::Code(text) => MarkdownEvent::Code(text.to_string()),
        Event::Html(text) => MarkdownEvent::Html(text.to_string()),
        Event::FootnoteReference(name) => MarkdownEvent::FootnoteReference(name.to_string()),
        Event::SoftBreak => MarkdownEvent::SoftBreak,
        Event::HardBreak => MarkdownEvent::HardBreak,
        Event::Rule => MarkdownEvent::Rule,
        Event::TaskListMarker(checked) => MarkdownEvent::TaskListMarker(checked),
    }
}

/// Converts an event back into pulldown-cmark's, variant by variant.
#[verifier::external_body]
fn event_of<'a>(event: MarkdownEvent<'a>) -> Event<'a> {
    match event {
        MarkdownEvent::Start(tag) => Event::Start(block_tag_of(tag)),
        MarkdownEvent::End(tag) => Event::End(block_tag_of(tag)),
        MarkdownEvent::Text(text) => Event::Text(text.into()),
        MarkdownEvent::Code(text) => Event::Code(text.into()),
        MarkdownEvent::Html(text) => Event::Html(text.into()),
        MarkdownEvent::FootnoteReference(name) => Event::FootnoteReference(name.into()),
        MarkdownEvent::SoftBreak => Event::SoftBreak,
        MarkdownEvent::HardBreak => Event::HardBreak,
        MarkdownEvent::Rule => Event::Rule,
        MarkdownEvent::TaskListMarker(checked) => Event::TaskListMarker(checked),
    }
}

/// The events that pulldown-cmark's parser gives for a Markdown text with every extension
/// enabled, as plain values.
pub uninterp spec fn markdown_events(body: Seq<char>) -> Seq<EventKind>;

/// Parses Markdown with pulldown-cmark's `Parser::new_ext` and `Options::all()`, converting each
/// event. The events are named `markdown_events`: the same text always gives the same events.
#[verifier::external_body]
pub(crate) fn parse_markdown<'a>(body: &'a str) -> (events: Vec<MarkdownEvent<'a>>)
    ensures
        events@.map_values(|e: MarkdownEvent<'a>| e.kind()) == markdown_events(body@),
{
    Parser::new_ext(body, Options::all()).map(event_from).collect()
}

/// The HTML that pulldown-cmark's `html::push_html` writes for events, given as plain values.
pub uninterp spec fn pushed_html(events: Seq<EventKind>) -> Seq<char>;

/// Writes events as HTML with pulldown-cmark's `html::push_html`, into an empty string. The
/// HTML is named `pushed_html` of the events: it depends on nothing else.
#[verifier::external_body]
pub(crate) fn events_html<'a>(events: Vec<MarkdownEvent<'a>>) -> (html: String)
    ensures
        html@ == pushed_html(events@.map_values(|e: MarkdownEvent<'a>| e.kind())),
{
    let mut html = String::new();
    html::push_html(&mut html, events.into_iter().map(event_of));
    html
}

/// Whether the info string of a fenced code block marks PlantUML: `plantuml` in any ASCII
/// case, with surrounding whitespace ignored.
pub open spec fn is_plantuml_info(info: Seq<char>) -> bool {
    equal_ignoring_ascii_case(trimmed(info), seq!['p', 'l', 'a', 'n', 't', 'u', 'm', 'l'])
}

/// The text that follows the label of a link to a source file opened in VS Code.
pub open spec fn source_link_note() -> Seq<char> {
    " (opens in VS Code)"@
}

/// The VS Code link given for a link destination: that of the first entry for it.
pub open spec fn source_link_in(links: Seq<(Seq<char>, Seq<char>)>, destination: Seq<char>) -> Option<
    Seq<char>,
>
    decreases links.len(),
{
    if links.len() == 0 {
        None
    } else if links[0].0 == destination {
        Some(links[0].1)
    } else {
        source_link_in(links.skip(1), destination)
    }
}

/// The destinations and VS Code links of source links as plain values.
pub open spec fn link_pairs(links: Seq<(String, String)>) -> Seq<(Seq<char>, Seq<char>)> {
    links.map_values(|p: (String, String)| (p.0@, p.1@))
}

/// The state of rendering after a prefix of the events: the events written so far, the
/// diagram sources collected so far, the source of the PlantUML block being read, if any, and
/// whether the open link leads to a source file.
pub struct RewriteState {
    pub events: Seq<EventKind>,
    pub diagrams: Seq<Seq<char>>,
    pub active: Option<Seq<char>>,
    pub in_source_link: bool,
}

/// One event of rendering. Inside a PlantUML block, text and line breaks collect the diagram
/// source and the end of the block writes the diagram's figure in its place; outside, a
/// PlantUML fence opens a block, a link to a known document leads to its route, any other link
/// with a VS Code link given leads there and gets a note before its end, raw HTML becomes text,
/// and any other event is kept.
pub open spec fn rewrite_step(
    state: RewriteState,
    event: EventKind,
    document_id: nat,
    current: Seq<char>,
    known: Seq<Seq<char>>,
    links: Seq<(Seq<char>, Seq<char>)>,
    rendering_enabled: bool,
) -> RewriteState {
    match state.active {
        Some(source) => match event {
            EventKind::End(TagKind::CodeBlock(_)) => RewriteState {
                events: state.events.push(
                    EventKind::Html(
                        placeholder_text(document_id, state.diagrams.len(), source, rendering_enabled),
                    ),
                ),
                diagrams: state.diagrams.push(source),
                active: None,
                ..state
            },
            EventKind::Text(text) => RewriteState { active: Some(source + text), ..state },
            EventKind::Code(text) => RewriteState { active: Some(source + text), ..state },
            EventKind::SoftBreak => RewriteState { active: Some(source.push('\n')), ..state },
            EventKind::HardBreak => RewriteState { active: Some(source.push('\n')), ..state },
            _ => state,
        },
        None => match event {
            EventKind::Start(TagKind::CodeBlock(Some(info))) => if is_plantuml_info(info) {
                RewriteState { active: Some(Seq::empty()), ..state }
            } else {
                RewriteState { events: state.events.push(event), ..state }
            },
            EventKind::Start(TagKind::Link(how, destination, title)) => {
                let resolved = resolved_link(destination, current, known);
                if resolved != destination {
                    RewriteState {
                        events: state.events.push(
                            EventKind::Start(TagKind::Link(how, resolved, title)),
                        ),
                        in_source_link: false,
                        ..state
                    }
                } else {
                    match source_link_in(links, destination) {
                        Some(url) => RewriteState {
                            events: state.events.push(
                                EventKind::Start(TagKind::Link(how, url, title)),
                            ),
                            in_source_link: true,
                            ..state
                        },
                        None => RewriteState {
                            events: state.events.push(event),
                            in_source_link: false,
                            ..state
                        },
                    }
                }
            },
            EventKind::End(TagKind::Link(_, _, _)) => if state.in_source_link {
                RewriteState {
                    events: state.events.push(EventKind::Text(source_link_note())).push(event),
                    in_source_link: false,
                    ..state
                }
            } else {
                RewriteState { events: state.events.push(event), ..state }
            },
            EventKind::Html(text) => RewriteState {
                events: state.events.push(EventKind::Text(text)),
                ..state
            },
            _ => RewriteState { events: state.events.push(event), ..state },
        },
    }
}

/// Rendering after each event in turn, starting with nothing written and no open block.
pub open spec fn rewrite_all(
    events: Seq<EventKind>,
    document_id: nat,
    current: Seq<char>,
    known: Seq<Seq<char>>,
    links: Seq<(Seq<char>, Seq<char>)>,
    rendering_enabled: bool,
) -> RewriteState
    decreases events.len(),
{
    if events.len() == 0 {
        RewriteState {
            events: Seq::empty(),
            diagrams: Seq::empty(),
            active: None,
            in_source_link: false,
        }
    } else {
        rewrite_step(
            rewrite_all(events.drop_last(), document_id, current, known, links, rendering_enabled),
            events.last(),
            document_id,
            current,
            known,
            links,
            rendering_enabled,
        )
    }
}

fn is_plantuml_fence(info: &String) -> (plantuml: bool)
    ensures
        plantuml == is_plantuml_info(info@),
{
    let chars = chars_of(info.as_str());
    let (from, to) = trim_bounds(chars.as_slice());
    let expected = ['p', 'l', 'a', 'n', 't', 'u', 'm', 'l'];
    assert(expected@ =~= seq!['p', 'l', 'a', 'n', 't', 'u', 'm', 'l']);
    range_equals_ignoring_ascii_case(chars.as_slice(), from, to, &expected)
}

/// The VS Code link given for a link destination, if any.
pub fn source_link_for(source_links: &[(String, String)], destination: &str) -> (url: Option<String>)
    ensures
        match source_link_in(link_pairs(source_links@), destination@) {
            Some(u) => url matches Some(v) && v@ == u,
            None => url is None,
        },
{
    let ghost links = link_pairs(source_links@);
    let wanted = chars_of(destination);
    let mut index: usize = 0;
    assert(links.skip(0) =~= links);
    while index < source_links.len()
        invariant
            index <= source_links@.len(),
            links == link_pairs(source_links@),
            links.len() == source_links@.len(),
            wanted@ == destination@,
            source_link_in(links, destination@) == source_link_in(links.skip(index as int), destination@),
        decreases source_links@.len() - index,
    {
        let (candidate, url) = &source_links[index];
        assert(links.skip(index as int)[0] == links[index as int]);
        if chars_equal(chars_of(candidate.as_str()).as_slice(), wanted.as_slice()) {
            return Some(url.clone());
        }
        assert(links.skip(index as int).skip(1) =~= links.skip(index + 1));
        index = index + 1;
    }
    assert(links.skip(index as int).len() == 0);
    None
}

/// Rewrites the events of a Markdown document for the viewer and collects its diagrams.
pub fn rewrite_events<'a>(
    events: Vec<MarkdownEvent<'a>>,
    document_id: usize,
    current_document: &str,
    known_documents: &[String],
    source_links: &[(String, String)],
    renderer: &DiagramRenderer,
) -> (rewritten: (Vec<MarkdownEvent<'a>>, Vec<Diagram>))
    ensures
        ({
            let state = rewrite_all(
                events@.map_values(|e: MarkdownEvent<'a>| e.kind()),
                document_id as nat,
                current_document@,
                known_documents@.map_values(|k: String| k@),
                link_pairs(source_links@),
                renderer.is_enabled_spec(),
            );
            &&& rewritten.0@.map_values(|e: MarkdownEvent<'a>| e.kind()) == state.events
            &&& rewritten.1@.map_values(|d: Diagram| d.source@) == state.diagrams
        }),
{
    let ghost kinds = events@.map_values(|e: MarkdownEvent<'a>| e.kind());
    let ghost known = known_documents@.map_values(|k: String| k@);
    let ghost links = link_pairs(source_links@);
    let enabled = renderer.is_enabled();
    let mut in_source_link = false;
    let mut out: Vec<MarkdownEvent<'a>> = Vec::new();
    let mut diagrams: Vec<Diagram> = Vec::new();
    let mut active: Option<String> = None;
    for event in it: events.into_iter()
        invariant
            it.seq() == events@,
            kinds == events@.map_values(|e: MarkdownEvent<'a>| e.kind()),
            known == known_documents@.map_values(|k: String| k@),
            links == link_pairs(source_links@),
            enabled == renderer.is_enabled_spec(),
            ({
                let state = rewrite_all(
                    kinds.take(it.index() as int),
                    document_id as nat,
                    current_document@,
                    known,
                    links,
                    enabled,
                );
                &&& out@.map_values(|e: MarkdownEvent<'a>| e.kind()) == state.events
                &&& diagrams@.map_values(|d: Diagram| d.source@) == state.diagrams
                &&& match active {
                    Some(source) => state.active == Some(source@),
                    None => state.active is None,
                }
                &&& state.in_source_link == in_source_link
            }),
    {
        let ghost before = rewrite_all(
            kinds.take(it.index() as int),
            document_id as nat,
            current_document@,
            known,
            links,
            enabled,
        );
        proof {
            assert(kinds.take(it.index() + 1).drop_last() =~= kinds.take(it.index() as int));
            assert(kinds.take(it.index() + 1).last() == event.kind());
        }
        let ghost out_before = out@;
        let ghost diagrams_before = diagrams@;
        match active {
            Some(mut source) => {
                match event {
                    MarkdownEvent::End(MarkdownTag::CodeBlock(_)) => {
                        let mut placeholder = String::new();
                        push_diagram_placeholder(
                            &mut placeholder,
                            document_id,
                            diagrams.len(),
                            source.as_str(),
                            enabled,
                        );
                        diagrams.push(Diagram { source });
                        out.push(MarkdownEvent::Html(placeholder));
                        active = None;
                    },
                    MarkdownEvent::Text(text) => {
                        source.append(text.as_str());
                        active = Some(source);
                    },
                    MarkdownEvent::Code(text) => {
                        source.append(text.as_str());
                        active = Some(source);
                    },
                    MarkdownEvent::SoftBreak => {
                        push_char(&mut source, '\n');
                        active = Some(source);
                    },
                    MarkdownEvent::HardBreak => {
                        push_char(&mut source, '\n');
                        active = Some(source);
                    },
                    _ => {
                        active = Some(source);
                    },
                }
            },
            None => {
                match event {
                    MarkdownEvent::Start(MarkdownTag::CodeBlock(Some(info))) => {
                        if is_plantuml_fence(&info) {
                            active = Some(String::new());
                        } else {
                            out.push(MarkdownEvent::Start(MarkdownTag::CodeBlock(Some(info))));
                        }
                    },
                    MarkdownEvent::Start(MarkdownTag::Link(how, destination, title)) => {
                        let resolved = resolve_document_link(
                            destination.as_str(),
                            current_document,
                            known_documents,
                        );
                        let unresolved = chars_equal(
                            chars_of(resolved.as_str()).as_slice(),
                            chars_of(destination.as_str()).as_slice(),
                        );
                        if !unresolved {
                            out.push(MarkdownEvent::Start(MarkdownTag::Link(how, resolved, title)));
                            in_source_link = false;
                        } else {
                            match source_link_for(source_links, destination.as_str()) {
                                Some(url) => {
                                    out.push(MarkdownEvent::Start(MarkdownTag::Link(how, url, title)));
                                    in_source_link = true;
                                },
                                None => {
                                    out.push(
                                        MarkdownEvent::Start(MarkdownTag::Link(how, destination, title)),
                                    );
                                    in_source_link = false;
                                },
                            }
                        }
                    },
                    MarkdownEvent::End(MarkdownTag::Link(how, destination, title)) => {
                        if in_source_link {
                            out.push(MarkdownEvent::Text(" (opens in VS Code)".to_owned()));
                            in_source_link = false;
                        }
                        out.push(MarkdownEvent::End(MarkdownTag::Link(how, destination, title)));
                    },
                    MarkdownEvent::Html(text) => {
                        out.push(MarkdownEvent::Text(text));
                    },
                    other => {
                        out.push(other);
                    },
                }
            },
        }
        proof {
            assert(out@.map_values(|e: MarkdownEvent<'a>| e.kind()) =~= rewrite_all(
                kinds.take(it.index() + 1),
                document_id as nat,
                current_document@,
                known,
                links,
                enabled,
            ).events);
            assert(diagrams@.map_values(|d: Diagram| d.source@) =~= rewrite_all(
                kinds.take(it.index() + 1),
                document_id as nat,
                current_document@,
                known,
                links,
                enabled,
            ).diagrams);
        }
    }
    proof {
        assert(kinds.take(kinds.len() as int) =~= kinds);
    }
    (out, diagrams)
}

} // verus!
