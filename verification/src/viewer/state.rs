use vstd::prelude::*;

use crate::events::{link_pairs, markdown_events, pushed_html, rewrite_all};
use crate::identifiers::{last_index_for, pair_views};
use crate::markdown::{
    frontmatter_text, markdown_body, render, render_standalone_plantuml, standalone_text, Diagram,
    RenderedDocument,
};
use crate::plantuml::DiagramRenderer;
use crate::target::{DocumentKind, MarkdownDocument};
use crate::text::{chars_of, find_char_from, split_chars, split_on, string_of_range};
use crate::viewer::known_documents::KnownDocuments;
use crate::viewer::page::{page, page_text, revision_view};

verus! {

/// Whether a document is a rendering of a Markdown text: its frontmatter block, then the HTML
/// of its rewritten events; its diagrams are those of the PlantUML fences of its body.
pub open spec fn rendered_markdown(
    document: RenderedDocument,
    markdown: Seq<char>,
    document_id: nat,
    current_document: Seq<char>,
    known_documents: Seq<Seq<char>>,
    source_links: Seq<(Seq<char>, Seq<char>)>,
    rendering_enabled: bool,
) -> bool {
    &&& document.html@ == frontmatter_text(markdown) + pushed_html(
        rewrite_all(
            markdown_events(markdown_body(markdown)),
            document_id,
            current_document,
            known_documents,
            source_links,
            rendering_enabled,
        ).events,
    )
    &&& document.diagrams@.map_values(|d: Diagram| d.source@) == rewrite_all(
        markdown_events(markdown_body(markdown)),
        document_id,
        current_document,
        known_documents,
        source_links,
        rendering_enabled,
    ).diagrams
}

/// Whether a document is a rendering of a source of a kind: a Markdown text, or a standalone
/// PlantUML file with its one diagram.
pub open spec fn rendered_as(
    document: RenderedDocument,
    source: Seq<char>,
    document_id: nat,
    identifier: Seq<char>,
    kind: DocumentKind,
    known_documents: Seq<Seq<char>>,
    source_links: Seq<(Seq<char>, Seq<char>)>,
    rendering_enabled: bool,
) -> bool {
    match kind {
        DocumentKind::Markdown => rendered_markdown(
            document,
            source,
            document_id,
            identifier,
            known_documents,
            source_links,
            rendering_enabled,
        ),
        DocumentKind::PlantUml => document.html@ == standalone_text(
            document_id,
            source,
            rendering_enabled,
        ) && document.diagrams@.len() == 1 && document.diagrams@[0].source@ == source,
    }
}

/// The identifiers of known documents.
pub open spec fn identifier_views(known: Seq<String>) -> Seq<Seq<char>> {
    known.map_values(|k: String| k@)
}

/// The source links given for the document at a position: its table, or none where no table
/// stands at that position.
pub open spec fn links_at(tables: Seq<Vec<(String, String)>>, position: int) -> Seq<(Seq<char>, Seq<char>)> {
    if 0 <= position < tables.len() {
        link_pairs(tables[position]@)
    } else {
        Seq::empty()
    }
}

/// Renders a document by its kind.
pub fn render_document(
    source: &str,
    document_id: usize,
    identifier: &str,
    kind: DocumentKind,
    known_documents: &[String],
    source_links: &[(String, String)],
    renderer: &DiagramRenderer,
) -> (rendered: RenderedDocument)
    ensures
        rendered_as(
            rendered,
            source@,
            document_id as nat,
            identifier@,
            kind,
            identifier_views(known_documents@),
            link_pairs(source_links@),
            renderer.is_enabled_spec(),
        ),
{
    match kind {
        DocumentKind::Markdown => render(
            source,
            document_id,
            identifier,
            known_documents,
            source_links,
            renderer,
        ),
        DocumentKind::PlantUml => render_standalone_plantuml(document_id, source, renderer),
    }
}

/// A document of a viewing session, as last read and rendered, with the revision that counts
/// its changes.
pub struct ViewerDocument {
    pub identifier: String,
    pub canonical_path: String,
    pub source: String,
    pub kind: DocumentKind,
    pub rendered: RenderedDocument,
    pub revision: u64,
}

/// The documents of a viewing session with what serving them needs: the known identifiers,
/// the first document, the diagram renderer, the PlantUML server and the session's token.
pub struct ViewerState {
    documents: Vec<ViewerDocument>,
    known_documents: KnownDocuments,
    known_document_ids: Vec<String>,
    initial_document: usize,
    renderer: DiagramRenderer,
    plantuml_server: String,
    session_token: String,
}

/// The identifier and index pairs of documents.
pub open spec fn document_pairs(documents: Seq<MarkdownDocument>) -> Seq<(Seq<char>, usize)> {
    Seq::new(documents.len(), |i: int| (documents[i].identifier@, i as usize))
}

impl ViewerState {
    /// The documents of the session.
    pub closed spec fn documents_view(&self) -> Seq<ViewerDocument> {
        self.documents@
    }

    /// The identifiers that links may reach.
    pub closed spec fn known_ids_view(&self) -> Seq<Seq<char>> {
        identifier_views(self.known_document_ids@)
    }

    /// The document index an identifier leads to.
    pub closed spec fn index_of(&self, identifier: Seq<char>) -> Option<usize> {
        self.known_documents.index_of(identifier)
    }

    /// The first document.
    pub closed spec fn initial_view(&self) -> usize {
        self.initial_document
    }

    /// The diagram renderer.
    pub closed spec fn renderer_view(&self) -> DiagramRenderer {
        self.renderer
    }

    /// The session's token.
    pub closed spec fn token_view(&self) -> Seq<char> {
        self.session_token@
    }

    /// The PlantUML server.
    pub closed spec fn server_view(&self) -> Seq<char> {
        self.plantuml_server@
    }

    /// The state of a viewing session over a target's documents: each is rendered, with the
    /// source links given at its position, at revision zero, and each identifier leads to its
    /// document.
    pub fn new(
        documents: Vec<MarkdownDocument>,
        source_links: Vec<Vec<(String, String)>>,
        initial_document: usize,
        renderer: DiagramRenderer,
        plantuml_server: String,
        session_token: String,
    ) -> (state: Self)
        ensures
            state.documents_view().len() == documents@.len(),
            state.known_ids_view() == documents@.map_values(|d: MarkdownDocument| d.identifier@),
            forall|identifier: Seq<char>| #[trigger]
                state.index_of(identifier) == last_index_for(
                    document_pairs(documents@),
                    identifier,
                ),
            forall|i: int|
                0 <= i < documents@.len() ==> {
                    let viewed = #[trigger] state.documents_view()[i];
                    &&& viewed.identifier@ == documents@[i].identifier@
                    &&& viewed.canonical_path@ == documents@[i].canonical_path@
                    &&& viewed.source@ == documents@[i].source@
                    &&& viewed.kind == documents@[i].kind
                    &&& viewed.revision == 0
                    &&& rendered_as(
                        viewed.rendered,
                        documents@[i].source@,
                        i as nat,
                        documents@[i].identifier@,
                        documents@[i].kind,
                        state.known_ids_view(),
                        links_at(source_links@, i),
                        renderer.is_enabled_spec(),
                    )
                },
            state.initial_view() == initial_document,
            state.renderer_view() == renderer,
            state.server_view() == plantuml_server@,
            state.token_view() == session_token@,
    {
        let ghost given_documents = documents@;
        let count = documents.len();
        let mut pairs: Vec<(String, usize)> = Vec::new();
        let mut known_ids: Vec<String> = Vec::new();
        let mut index: usize = 0;
        while index < documents.len()
            invariant
                index <= documents@.len(),
                pairs@.len() == index,
                known_ids@.len() == index,
                forall|i: int| 0 <= i < index ==> #[trigger] pairs@[i].0@ == documents@[i].identifier@ && pairs@[i].1 == i,
                forall|i: int| 0 <= i < index ==> #[trigger] known_ids@[i]@ == documents@[i].identifier@,
            decreases documents@.len() - index,
        {
            pairs.push((documents[index].identifier.clone(), index));
            known_ids.push(documents[index].identifier.clone());
            index = index + 1;
        }
        proof {
            assert(pair_views(pairs@) =~= document_pairs(documents@));
            assert(identifier_views(known_ids@) =~= documents@.map_values(
                |d: MarkdownDocument| d.identifier@,
            ));
        }
        let known_documents = KnownDocuments::new(pairs);
        let mut viewed: Vec<ViewerDocument> = Vec::new();
        let mut rest = documents;
        let mut reversed: Vec<MarkdownDocument> = Vec::new();
        while rest.len() > 0
            invariant
                rest@.len() + reversed@.len() == given_documents.len(),
                forall|i: int| 0 <= i < rest@.len() ==> #[trigger] rest@[i] == given_documents[i],
                forall|i: int|
                    0 <= i < reversed@.len() ==> #[trigger] reversed@[i] == given_documents[given_documents.len()
                        - 1 - i],
            decreases rest@.len(),
        {
            let document = rest.pop().unwrap();
            reversed.push(document);
        }
        let mut position: usize = 0;
        while reversed.len() > 0
            invariant
                position + reversed@.len() == given_documents.len(),
                given_documents.len() == count,
                viewed@.len() == position,
                forall|i: int|
                    0 <= i < reversed@.len() ==> #[trigger] reversed@[i] == given_documents[given_documents.len()
                        - 1 - i],
                identifier_views(known_ids@) == given_documents.map_values(|d: MarkdownDocument| d.identifier@),
                forall|i: int|
                    0 <= i < position ==> {
                        let v = #[trigger] viewed@[i];
                        &&& v.identifier@ == given_documents[i].identifier@
                        &&& v.canonical_path@ == given_documents[i].canonical_path@
                        &&& v.source@ == given_documents[i].source@
                        &&& v.kind == given_documents[i].kind
                        &&& v.revision == 0
                        &&& rendered_as(
                            v.rendered,
                            given_documents[i].source@,
                            i as nat,
                            given_documents[i].identifier@,
                            given_documents[i].kind,
                            identifier_views(known_ids@),
                            links_at(source_links@, i),
                            renderer.is_enabled_spec(),
                        )
                    },
            decreases reversed@.len(),
        {
            let document = reversed.pop().unwrap();
            proof {
                assert(document == given_documents[position as int]);
            }
            let no_links: Vec<(String, String)> = Vec::new();
            let links = if position < source_links.len() {
                source_links[position].as_slice()
            } else {
                no_links.as_slice()
            };
            assert(link_pairs(links@) =~= links_at(source_links@, position as int));
            let rendered = render_document(
                document.source.as_str(),
                position,
                document.identifier.as_str(),
                document.kind,
                known_ids.as_slice(),
                links,
                &renderer,
            );
            let MarkdownDocument { identifier, canonical_path, source, kind } = document;
            viewed.push(
                ViewerDocument { identifier, canonical_path, source, kind, rendered, revision: 0 },
            );
            position = position + 1;
        }
        ViewerState {
            documents: viewed,
            known_documents,
            known_document_ids: known_ids,
            initial_document,
            renderer,
            plantuml_server,
            session_token,
        }
    }

    /// The first document.
    pub fn initial_document(&self) -> (initial: usize)
        ensures
            initial == self.initial_view(),
    {
        self.initial_document
    }

    /// The number of documents.
    pub fn document_count(&self) -> (count: usize)
        ensures
            count == self.documents_view().len(),
    {
        self.documents.len()
    }

    /// The document index an identifier leads to.
    pub fn known_document_index(&self, identifier: &str) -> (index: Option<usize>)
        ensures
            index == self.index_of(identifier@),
    {
        self.known_documents.index(identifier)
    }

    /// The session's token.
    pub fn session_token(&self) -> (token: &String)
        ensures
            token@ == self.token_view(),
    {
        &self.session_token
    }

    /// The PlantUML server.
    pub fn plantuml_server(&self) -> (server: &String)
        ensures
            server@ == self.server_view(),
    {
        &self.plantuml_server
    }

    /// A document of the session, if there is such a document.
    pub fn document(&self, document_id: usize) -> (document: Option<&ViewerDocument>)
        ensures
            document_id < self.documents_view().len() ==> document == Some(
                &self.documents_view()[document_id as int],
            ),
            document_id >= self.documents_view().len() ==> document is None,
    {
        if document_id < self.documents.len() {
            Some(&self.documents[document_id])
        } else {
            None
        }
    }

    /// The revision of a document, if there is such a document.
    pub fn document_revision(&self, document_id: usize) -> (revision: Option<u64>)
        ensures
            document_id < self.documents_view().len() ==> revision == Some(
                self.documents_view()[document_id as int].revision,
            ),
            document_id >= self.documents_view().len() ==> revision is None,
    {
        if document_id < self.documents.len() {
            Some(self.documents[document_id].revision)
        } else {
            None
        }
    }

    /// The source of a diagram of a document, if there is such a diagram.
    pub fn diagram_source(&self, document_id: usize, diagram_id: usize) -> (source: Option<String>)
        ensures
            ({
                let documents = self.documents_view();
                if document_id < documents.len() && diagram_id
                    < documents[document_id as int].rendered.diagrams@.len() {
                    source matches Some(s) && s@
                        == documents[document_id as int].rendered.diagrams@[diagram_id as int].source@
                } else {
                    source is None
                }
            }),
    {
        if document_id < self.documents.len() {
            let document = &self.documents[document_id];
            if diagram_id < document.rendered.diagrams.len() {
                return Some(document.rendered.diagrams[diagram_id].source.clone());
            }
        }
        None
    }

    /// The page that shows a document, if there is such a document: its rendering, titled by
    /// its identifier and refreshed by its revision.
    pub fn document_page(&self, document_id: usize) -> (html: Option<String>)
        ensures
            ({
                let documents = self.documents_view();
                if document_id < documents.len() {
                    let document = documents[document_id as int];
                    html matches Some(h) && h@ == page_text(
                        document.identifier@,
                        document.rendered.html@,
                        Some((document.identifier@, document.revision as nat)),
                        self.token_view(),
                    )
                } else {
                    html is None
                }
            }),
    {
        if document_id < self.documents.len() {
            let document = &self.documents[document_id];
            let html = page(
                document.identifier.as_str(),
                document.rendered.html.clone(),
                Some((document.identifier.as_str(), document.revision)),
                self.session_token.as_str(),
            );
            Some(html)
        } else {
            None
        }
    }

    /// Takes a fresh reading of a document: a changed text is rendered again, with the source
    /// links given for it, and its revision counts the change; an unchanged one leaves everything
    /// as it was.
    pub fn refresh_document(
        &mut self,
        document_id: usize,
        fresh: String,
        source_links: &[(String, String)],
    ) -> (changed: bool)
        requires
            document_id < old(self).documents_view().len(),
            old(self).documents_view()[document_id as int].revision < u64::MAX,
        ensures
            changed == (fresh@ != old(self).documents_view()[document_id as int].source@),
            !changed ==> final(self).documents_view() == old(self).documents_view(),
            final(self).documents_view().len() == old(self).documents_view().len(),
            forall|i: int|
                0 <= i < old(self).documents_view().len() && i != document_id ==> #[trigger] final(self).documents_view()[i] == old(self).documents_view()[i],
            changed ==> {
                let before = old(self).documents_view()[document_id as int];
                let after = final(self).documents_view()[document_id as int];
                &&& after.identifier@ == before.identifier@
                &&& after.canonical_path@ == before.canonical_path@
                &&& after.kind == before.kind
                &&& after.source@ == fresh@
                &&& after.revision == before.revision + 1
                &&& rendered_as(
                    after.rendered,
                    fresh@,
                    document_id as nat,
                    before.identifier@,
                    before.kind,
                    old(self).known_ids_view(),
                    link_pairs(source_links@),
                    old(self).renderer_view().is_enabled_spec(),
                )
            },
            final(self).known_ids_view() == old(self).known_ids_view(),
            forall|identifier: Seq<char>| #[trigger]
                final(self).index_of(identifier) == old(self).index_of(identifier),
            final(self).initial_view() == old(self).initial_view(),
            final(self).renderer_view() == old(self).renderer_view(),
            final(self).token_view() == old(self).token_view(),
            final(self).server_view() == old(self).server_view(),
    {
        let document = &self.documents[document_id];
        let stored = chars_of(document.source.as_str());
        let read = chars_of(fresh.as_str());
        if crate::text::chars_equal(stored.as_slice(), read.as_slice()) {
            return false;
        }
        let rendered = render_document(
            fresh.as_str(),
            document_id,
            document.identifier.as_str(),
            document.kind,
            self.known_document_ids.as_slice(),
            source_links,
            &self.renderer,
        );
        let replacement = ViewerDocument {
            identifier: document.identifier.clone(),
            canonical_path: document.canonical_path.clone(),
            source: fresh,
            kind: document.kind,
            rendered,
            revision: document.revision + 1,
        };
        self.documents.set(document_id, replacement);
        true
    }
}

/// The first position of a character in a text.
pub open spec fn first_char(s: Seq<char>, c: char) -> Option<int>
    decreases s.len(),
{
    if s.len() == 0 {
        None
    } else {
        match first_char(s.drop_last(), c) {
            Some(i) => Some(i),
            None => if s.last() == c {
                Some(s.len() - 1)
            } else {
                None
            },
        }
    }
}

pub proof fn lemma_first_char(s: Seq<char>, c: char, at: Option<int>)
    requires
        match at {
            Some(a) => 0 <= a < s.len() && s[a] == c && forall|i: int| 0 <= i < a ==> s[i] != c,
            None => forall|i: int| 0 <= i < s.len() ==> s[i] != c,
        },
    ensures
        first_char(s, c) == at,
    decreases s.len(),
{
    if s.len() > 0 {
        let rest = s.drop_last();
        match at {
            Some(a) => {
                if a < s.len() - 1 {
                    lemma_first_char(rest, c, Some(a));
                } else {
                    lemma_first_char(rest, c, None);
                }
            },
            None => {
                lemma_first_char(rest, c, None);
            },
        }
    }
}

/// The value of a query parameter piece named `token`, where it has one.
pub open spec fn param_token(piece: Seq<char>) -> Option<Seq<char>> {
    match first_char(piece, '=') {
        Some(i) => if piece.take(i) == seq!['t', 'o', 'k', 'e', 'n'] {
            Some(piece.skip(i + 1))
        } else {
            None
        },
        None => None,
    }
}

/// The value of the first `token` parameter among query pieces.
pub open spec fn token_in_pieces(pieces: Seq<Seq<char>>) -> Option<Seq<char>>
    decreases pieces.len(),
{
    if pieces.len() == 0 {
        None
    } else {
        match token_in_pieces(pieces.drop_last()) {
            Some(v) => Some(v),
            None => param_token(pieces.last()),
        }
    }
}

/// The session token a query carries: the value of its first `token` parameter.
pub open spec fn query_token(query: Seq<char>) -> Option<Seq<char>> {
    token_in_pieces(split_on(query, '&'))
}

/// The session token a query carries.
pub fn token_from_query(query: &str) -> (token: Option<String>)
    ensures
        match query_token(query@) {
            Some(t) => token matches Some(v) && v@ == t,
            None => token is None,
        },
{
    let chars = chars_of(query);
    let pieces = split_chars(chars.as_slice(), '&');
    let ghost all = split_on(query@, '&');
    let name = ['t', 'o', 'k', 'e', 'n'];
    assert(name@ =~= seq!['t', 'o', 'k', 'e', 'n']);
    let mut index: usize = 0;
    while index < pieces.len()
        invariant
            index <= pieces@.len(),
            all == split_on(query@, '&'),
            pieces@.len() == all.len(),
            forall|i: int| 0 <= i < pieces@.len() ==> #[trigger] pieces@[i]@ == all[i],
            name@ == seq!['t', 'o', 'k', 'e', 'n'],
            token_in_pieces(all.take(index as int)) is None,
        decreases pieces@.len() - index,
    {
        let piece = &pieces[index];
        proof {
            assert(all.take(index + 1).drop_last() =~= all.take(index as int));
            assert(all.take(index + 1).last() == piece@);
        }
        let found = find_char_from(piece.as_slice(), '=', 0);
        proof {
            lemma_first_char(
                piece@,
                '=',
                match found {
                    Some(at) => Some(at as int),
                    None => None,
                },
            );
        }
        match found {
            Some(at) => {
                if at == 5 && crate::text::matches_at(piece.as_slice(), &name, 0) {
                    proof {
                        assert(piece@.subrange(0, 5) =~= piece@.take(5));
                    }
                    let value = string_of_range(piece.as_slice(), at + 1, piece.len());
                    proof {
                        assert(piece@.subrange(at + 1, piece@.len() as int) =~= piece@.skip(at + 1));
                        assert(all.take(index + 1) =~= all.take(index as int).push(all[index as int]));
                        lemma_token_prefix(all, index as int);
                        lemma_token_extends(all, index + 1);
                    }
                    return Some(value);
                }
                proof {
                    if piece@.take(at as int) == seq!['t', 'o', 'k', 'e', 'n'] {
                        assert(piece@.take(at as int).len() == 5);
                        assert(piece@.subrange(0, 5) =~= piece@.take(5));
                    }
                }
            },
            None => {},
        }
        index = index + 1;
    }
    proof {
        assert(all.take(index as int) =~= all);
    }
    None
}

proof fn lemma_token_prefix(pieces: Seq<Seq<char>>, index: int)
    requires
        0 <= index < pieces.len(),
        token_in_pieces(pieces.take(index)) is None,
    ensures
        token_in_pieces(pieces.take(index + 1)) == param_token(pieces[index]),
{
    assert(pieces.take(index + 1).drop_last() =~= pieces.take(index));
}

proof fn lemma_token_extends(pieces: Seq<Seq<char>>, n: int)
    requires
        0 <= n <= pieces.len(),
        token_in_pieces(pieces.take(n)) is Some,
    ensures
        token_in_pieces(pieces) == token_in_pieces(pieces.take(n)),
    decreases pieces.len() - n,
{
    if n == pieces.len() {
        assert(pieces.take(n) =~= pieces);
    } else {
        assert(pieces.drop_last().take(n) =~= pieces.take(n));
        lemma_token_extends(pieces.drop_last(), n);
    }
}

/// Whether a request is the session's: its query carries the session's token.
pub fn is_authorized(query: Option<&str>, session_token: &str) -> (authorized: bool)
    ensures
        authorized == (query matches Some(q) && query_token(q@) == Some(session_token@)),
{
    match query {
        Some(q) => match token_from_query(q) {
            Some(token) => {
                let given = chars_of(token.as_str());
                let expected = chars_of(session_token);
                crate::text::chars_equal(given.as_slice(), expected.as_slice())
            },
            None => false,
        },
        None => false,
    }
}

/// A text without the `/` characters at its start.
pub open spec fn without_leading_slashes(s: Seq<char>) -> Seq<char>
    decreases s.len(),
{
    if s.len() > 0 && s[0] == '/' {
        without_leading_slashes(s.skip(1))
    } else {
        s
    }
}

/// The document identifier a route's path names: the path without its leading `/`
/// characters.
pub fn route_identifier(path: &str) -> (identifier: String)
    ensures
        identifier@ == without_leading_slashes(path@),
{
    let chars = chars_of(path);
    let mut start: usize = 0;
    assert(chars@.skip(0) =~= chars@);
    while start < chars.len() && chars[start] == '/'
        invariant
            start <= chars@.len(),
            chars@ == path@,
            without_leading_slashes(path@) == without_leading_slashes(chars@.skip(start as int)),
        decreases chars@.len() - start,
    {
        assert(chars@.skip(start as int).skip(1) =~= chars@.skip(start + 1));
        start = start + 1;
    }
    proof {
        let rest = chars@.skip(start as int);
        if rest.len() > 0 {
            assert(rest[0] == chars@[start as int]);
        }
    }
    assert(chars@.subrange(start as int, chars@.len() as int) =~= chars@.skip(start as int));
    string_of_range(chars.as_slice(), start, chars.len())
}

} // verus!
