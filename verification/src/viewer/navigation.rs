use vstd::prelude::*;

use crate::markdown::{escaped, push_escaped};
use crate::plantuml::DiagramRenderer;
use crate::text::{decimal_text, occurs_at, push_decimal};
use crate::viewer::catalog::{
    entry_views, form_serialized, CatalogEntry, CatalogPage, CatalogResults, RESULT_LIMIT,
};
use crate::viewer::page::refresh_attributes;

verus! {

/// Whether a text is empty.
fn is_empty_text(text: &str) -> (empty: bool)
    ensures
        empty == (text@.len() == 0),
{
    crate::text::chars_of(text).len() == 0
}

/// The query text that asks for a page of results of a query.
pub open spec fn page_query_text(query: Seq<char>, page: nat) -> Seq<char> {
    "query="@ + form_serialized(query) + "&page="@ + decimal_text(page)
}

/// The search form of the catalog.
pub open spec fn search_form_text(query: Seq<char>, current_route: Seq<char>) -> Seq<char> {
    "<form class=\"document-search\" method=\"get\" action=\""@ + escaped(current_route)
        + "\"><label for=\"document-search\">Search discovered documents</label><input id=\"document-search\" name=\"query\" type=\"search\" value=\""@
        + escaped(query)
        + "\" maxlength=\"256\"><button type=\"submit\">Search</button></form>"@
}

/// The search form of the catalog.
pub fn catalog_search_form(query: &str, current_route: &str) -> (form: String)
    ensures
        form@ == search_form_text(query@, current_route@),
{
    let mut form = String::new();
    form.append("<form class=\"document-search\" method=\"get\" action=\"");
    push_escaped(&mut form, current_route);
    form.append(
        "\"><label for=\"document-search\">Search discovered documents</label><input id=\"document-search\" name=\"query\" type=\"search\" value=\"",
    );
    push_escaped(&mut form, query);
    form.append("\" maxlength=\"256\"><button type=\"submit\">Search</button></form>");
    form
}

/// The status line of a page of results: none match, or which of how many are shown, with the
/// query where there is one.
pub open spec fn status_text(query: Seq<char>, page: nat, total: nat, shown: nat) -> Seq<char> {
    if total == 0 {
        "No discovered documents match the search."@
    } else {
        let first = ((page - 1) * 50 + 1) as nat;
        let last = (first + shown - 1) as nat;
        if query.len() == 0 {
            "Showing "@ + decimal_text(first) + "\u{2013}"@ + decimal_text(last) + " of "@
                + decimal_text(total) + " discovered documents."@
        } else {
            "Showing "@ + decimal_text(first) + "\u{2013}"@ + decimal_text(last) + " of "@
                + decimal_text(total) + " discovered documents matching \""@ + escaped(query)
                + "\"."@
        }
    }
}

/// The status line of a page of results.
pub fn catalog_status(results: &CatalogResults) -> (status: String)
    requires
        results.total > 0 ==> results.page >= 1 && results.entries@.len() >= 1 && (results.page
            - 1) * 50 + results.entries@.len() <= u64::MAX,
    ensures
        status@ == status_text(
            results.query@,
            results.page as nat,
            results.total as nat,
            results.entries@.len(),
        ),
{
    if results.total == 0 {
        return "No discovered documents match the search.".to_owned();
    }
    let first: u64 = ((results.page - 1) as u64) * (RESULT_LIMIT as u64) + 1;
    let last: u64 = first + ((results.entries.len() - 1) as u64);
    let mut status = "Showing ".to_owned();
    push_decimal(&mut status, first);
    status.append("\u{2013}");
    push_decimal(&mut status, last);
    status.append(" of ");
    push_decimal(&mut status, results.total as u64);
    if is_empty_text(results.query.as_str()) {
        status.append(" discovered documents.");
    } else {
        status.append(" discovered documents matching \"");
        push_escaped(&mut status, results.query.as_str());
        status.append("\".");
    }
    proof {
        if results.query@.len() == 0 {
            assert(results.query@.len() == 0);
        }
    }
    status
}

/// The link of one result.
pub open spec fn result_link_text(identifier: Seq<char>, page_query: Seq<char>, current: bool) -> Seq<char> {
    "<li data-document-navigation-item><a href=\"/documents/"@ + escaped(identifier) + "?"@
        + escaped(page_query) + "\""@ + (if current {
        " aria-current=\"page\""@
    } else {
        Seq::empty()
    }) + ">"@ + escaped(identifier) + "</a></li>"@
}

/// The links of results, the current document marked.
pub open spec fn result_links_text(entries: Seq<(Seq<char>, usize)>, page_query: Seq<char>, current_document: usize) -> Seq<
    char,
>
    decreases entries.len(),
{
    if entries.len() == 0 {
        Seq::empty()
    } else {
        result_links_text(entries.drop_last(), page_query, current_document) + result_link_text(
            entries.last().0,
            page_query,
            entries.last().1 == current_document,
        )
    }
}

/// The links of a page of results, the current document marked, each keeping the page.
pub fn catalog_result_links(results: &CatalogResults, current_document: usize) -> (links: String)
    ensures
        links@ == result_links_text(
            entry_views(results.entries@),
            page_query_text(results.query@, results.page as nat),
            current_document,
        ),
{
    let page_query = results.page_query(results.page);
    let ghost query_text = page_query_text(results.query@, results.page as nat);
    let ghost views = entry_views(results.entries@);
    let mut links = String::new();
    let mut index: usize = 0;
    while index < results.entries.len()
        invariant
            index <= results.entries@.len(),
            page_query@ == query_text,
            views == entry_views(results.entries@),
            links@ == result_links_text(views.take(index as int), query_text, current_document),
        decreases results.entries@.len() - index,
    {
        let entry: &CatalogEntry = &results.entries[index];
        links.append("<li data-document-navigation-item><a href=\"/documents/");
        push_escaped(&mut links, entry.identifier.as_str());
        links.append("?");
        push_escaped(&mut links, page_query.as_str());
        links.append("\"");
        if entry.document_index == current_document {
            links.append(" aria-current=\"page\"");
        }
        links.append(">");
        push_escaped(&mut links, entry.identifier.as_str());
        links.append("</a></li>");
        proof {
            assert(views.take(index + 1).drop_last() =~= views.take(index as int));
            assert(views.take(index + 1).last() == (entry.identifier@, entry.document_index));
        }
        index = index + 1;
        proof {
            assert(links@ =~= result_links_text(views.take(index as int), query_text, current_document));
        }
    }
    proof {
        assert(views.take(index as int) =~= views);
    }
    links
}

/// The links to the previous and next pages of results, where there are such pages.
pub open spec fn page_links_text(
    query: Seq<char>,
    page: nat,
    total: nat,
    current_route: Seq<char>,
) -> Seq<char> {
    let previous = if page > 1 {
        "<a href=\""@ + escaped(current_route) + "?"@ + escaped(
            page_query_text(query, (page - 1) as nat),
        ) + "\" rel=\"prev\">Previous results</a>"@
    } else {
        Seq::empty()
    };
    let next = if page * 50 < total {
        (if previous.len() > 0 {
            " "@
        } else {
            Seq::empty()
        }) + "<a href=\""@ + escaped(current_route) + "?"@ + escaped(
            page_query_text(query, page + 1),
        ) + "\" rel=\"next\">Next results</a>"@
    } else {
        Seq::empty()
    };
    let links = previous + next;
    if links.len() == 0 {
        Seq::empty()
    } else {
        "<p class=\"document-result-pages\">"@ + links + "</p>"@
    }
}

/// The links to the previous and next pages of results.
pub fn catalog_page_links(results: &CatalogResults, current_route: &str) -> (links: String)
    requires
        results.page < usize::MAX,
    ensures
        links@ == page_links_text(
            results.query@,
            results.page as nat,
            results.total as nat,
            current_route@,
        ),
{
    let mut page_links = String::new();
    if results.has_previous_page() {
        page_links.append("<a href=\"");
        push_escaped(&mut page_links, current_route);
        page_links.append("?");
        let query = results.page_query(results.page - 1);
        push_escaped(&mut page_links, query.as_str());
        page_links.append("\" rel=\"prev\">Previous results</a>");
    }
    if results.has_next_page() {
        if !is_empty_text(page_links.as_str()) {
            crate::text::push_char(&mut page_links, ' ');
        }
        page_links.append("<a href=\"");
        push_escaped(&mut page_links, current_route);
        page_links.append("?");
        let query = results.page_query(results.page + 1);
        push_escaped(&mut page_links, query.as_str());
        page_links.append("\" rel=\"next\">Next results</a>");
    }
    if is_empty_text(page_links.as_str()) {
        proof {
            reveal_strlit("<a href=\"");
        }
        return String::new();
    }
    let mut html = "<p class=\"document-result-pages\">".to_owned();
    html.append(page_links.as_str());
    html.append("</p>");
    proof {
        reveal_strlit("<a href=\"");
        reveal_strlit(" ");
    }
    html
}

/// The navigation pane of a catalog page.
pub open spec fn navigation_pane_text(query: Seq<char>, status: Seq<char>, document_links: Seq<char>, page_links: Seq<char>, current_route: Seq<char>) -> Seq<
    char,
> {
    "<nav id=\"document-navigation\" class=\"document-navigation\" aria-label=\"Discovered documents\"><h2>Documents</h2>"@
        + search_form_text(query, current_route) + "<p role=\"status\">"@ + status
        + "</p><ul id=\"document-catalog\">"@ + document_links + "</ul>"@ + page_links
        + "</nav>"@
}

/// The navigation pane of a catalog page: the search form, the status, the links of the
/// results and of the neighbouring pages; a query that is too long is explained instead.
pub fn navigation_pane(page: CatalogPage, current_document: usize, current_route: &str) -> (pane: String)
    requires
        page matches CatalogPage::Results(results) ==> results.page < usize::MAX && (results.total
            > 0 ==> results.page >= 1 && results.entries@.len() >= 1 && (results.page - 1) * 50
            + results.entries@.len() <= u64::MAX),
    ensures
        match page {
            CatalogPage::QueryTooLong { query } => pane@ == navigation_pane_text(
                query@,
                "Search queries are limited to 256 UTF-8 bytes."@,
                Seq::empty(),
                Seq::empty(),
                current_route@,
            ),
            CatalogPage::Results(results) => pane@ == navigation_pane_text(
                results.query@,
                status_text(
                    results.query@,
                    results.page as nat,
                    results.total as nat,
                    results.entries@.len(),
                ),
                result_links_text(
                    entry_views(results.entries@),
                    page_query_text(results.query@, results.page as nat),
                    current_document,
                ),
                page_links_text(
                    results.query@,
                    results.page as nat,
                    results.total as nat,
                    current_route@,
                ),
                current_route@,
            ),
        },
{
    let (query, status, document_links, page_links) = match page {
        CatalogPage::QueryTooLong { query } => (
            query,
            "Search queries are limited to 256 UTF-8 bytes.".to_owned(),
            String::new(),
            String::new(),
        ),
        CatalogPage::Results(results) => {
            let status = catalog_status(&results);
            let document_links = catalog_result_links(&results, current_document);
            let page_links = catalog_page_links(&results, current_route);
            (results.query, status, document_links, page_links)
        },
    };
    let mut pane =
        "<nav id=\"document-navigation\" class=\"document-navigation\" aria-label=\"Discovered documents\"><h2>Documents</h2>".to_owned();
    let form = catalog_search_form(query.as_str(), current_route);
    pane.append(form.as_str());
    pane.append("<p role=\"status\">");
    pane.append(status.as_str());
    pane.append("</p><ul id=\"document-catalog\">");
    pane.append(document_links.as_str());
    pane.append("</ul>");
    pane.append(page_links.as_str());
    pane.append("</nav>");
    pane
}

/// The diagram renderer's controls: its status and a button that disables it, or the notice
/// that rendering is disabled.
pub open spec fn renderer_controls_text(enabled: bool) -> Seq<char> {
    if enabled {
        "<section class=\"renderer-controls\" data-renderer-controls><p role=\"status\" data-renderer-status>Diagram renderer: public.</p><button type=\"button\" data-disable-renderer>Disable diagram rendering for this session</button></section>"@
    } else {
        "<section class=\"renderer-controls\" data-renderer-controls><p role=\"status\" data-renderer-status>Diagram rendering is disabled for this viewing session.</p></section>"@
    }
}

/// The diagram renderer's controls.
pub fn renderer_controls(renderer: &DiagramRenderer) -> (controls: String)
    ensures
        controls@ == renderer_controls_text(renderer.is_enabled_spec()),
{
    if renderer.is_enabled() {
        let mut controls =
            "<section class=\"renderer-controls\" data-renderer-controls><p role=\"status\" data-renderer-status>Diagram renderer: ".to_owned();
        controls.append(renderer.label());
        controls.append(
            ".</p><button type=\"button\" data-disable-renderer>Disable diagram rendering for this session</button></section>",
        );
        proof {
            reveal_strlit("public");
            reveal_strlit(
                "<section class=\"renderer-controls\" data-renderer-controls><p role=\"status\" data-renderer-status>Diagram renderer: ",
            );
            reveal_strlit(
                ".</p><button type=\"button\" data-disable-renderer>Disable diagram rendering for this session</button></section>",
            );
            reveal_strlit(
                "<section class=\"renderer-controls\" data-renderer-controls><p role=\"status\" data-renderer-status>Diagram renderer: public.</p><button type=\"button\" data-disable-renderer>Disable diagram rendering for this session</button></section>",
            );
            assert(controls@ =~= renderer_controls_text(true));
        }
        controls
    } else {
        "<section class=\"renderer-controls\" data-renderer-controls><p role=\"status\" data-renderer-status>Diagram rendering is disabled for this viewing session.</p></section>".to_owned()
    }
}

/// The button that shows or hides the navigation pane.
pub open spec fn navigation_control_text() -> Seq<char> {
    "<div class=\"document-navigation-control\" data-document-navigation-control hidden><button type=\"button\" data-document-navigation-toggle aria-controls=\"document-navigation\" aria-expanded=\"true\">Hide documents</button></div>"@
}

/// The button that shows or hides the navigation pane.
pub fn document_navigation_control() -> (control: &'static str)
    ensures
        control@ == navigation_control_text(),
{
    "<div class=\"document-navigation-control\" data-document-navigation-control hidden><button type=\"button\" data-document-navigation-toggle aria-controls=\"document-navigation\" aria-expanded=\"true\">Hide documents</button></div>"
}

/// A page with navigation: the escaped title, a navigation control where there is a pane, the
/// pane, the renderer's controls and the document, marked where rendering is disabled and
/// refreshed by the document's revision.
pub open spec fn navigation_page_text(
    title: Seq<char>,
    document_html: Seq<char>,
    navigation_html: Seq<char>,
    controls: Seq<char>,
    rendering_disabled: bool,
    document_revision: Option<(Seq<char>, nat)>,
) -> Seq<char> {
    "<!doctype html>\n<html lang=\"en\""@ + (if rendering_disabled {
        " data-diagram-rendering-disabled=\"true\""@
    } else {
        Seq::empty()
    }) + ">\n<head>\n  <meta charset=\"utf-8\">\n  <meta name=\"viewport\" content=\"width=device-width, initial-scale=1\">\n  <title>Lens: "@
        + escaped(title)
        + "</title>\n  <link rel=\"stylesheet\" href=\"/app.css\">\n</head>\n<body>\n  <main"@
        + refresh_attributes(document_revision) + ">\n    "@ + (if navigation_html.len() == 0 {
        Seq::empty()
    } else {
        navigation_control_text()
    }) + "\n    "@ + navigation_html
        + "\n    <section class=\"document-content\">\n      <header><p class=\"eyebrow\">Lens</p><h1>"@
        + escaped(title) + "</h1></header>\n      "@ + controls + "\n      <article>"@
        + document_html
        + "</article>\n    </section>\n  </main>\n  <script src=\"/app.js\"></script>\n</body>\n</html>"@
}

/// A page with navigation.
#[verifier::rlimit(40)]
pub fn page(
    title: &str,
    document_html: String,
    navigation_html: String,
    renderer_controls: String,
    rendering_disabled: bool,
    document_revision: Option<(&str, u64)>,
) -> (html: String)
    ensures
        html@ == navigation_page_text(
            title@,
            document_html@,
            navigation_html@,
            renderer_controls@,
            rendering_disabled,
            crate::viewer::page::revision_view(document_revision),
        ),
{
    let mut html = "<!doctype html>\n<html lang=\"en\"".to_owned();
    if rendering_disabled {
        html.append(" data-diagram-rendering-disabled=\"true\"");
    }
    html.append(
        ">\n<head>\n  <meta charset=\"utf-8\">\n  <meta name=\"viewport\" content=\"width=device-width, initial-scale=1\">\n  <title>Lens: ",
    );
    push_escaped(&mut html, title);
    html.append("</title>\n  <link rel=\"stylesheet\" href=\"/app.css\">\n</head>\n<body>\n  <main");
    match document_revision {
        Some((document_id, revision)) => {
            html.append(" data-document-id=\"");
            push_escaped(&mut html, document_id);
            html.append("\" data-document-revision=\"");
            push_decimal(&mut html, revision);
            html.append("\"");
        },
        None => {},
    }
    html.append(">\n    ");
    if !is_empty_text(navigation_html.as_str()) {
        html.append(document_navigation_control());
    }
    html.append("\n    ");
    html.append(navigation_html.as_str());
    html.append(
        "\n    <section class=\"document-content\">\n      <header><p class=\"eyebrow\">Lens</p><h1>",
    );
    push_escaped(&mut html, title);
    html.append("</h1></header>\n      ");
    html.append(renderer_controls.as_str());
    html.append("\n      <article>");
    html.append(document_html.as_str());
    html.append(
        "</article>\n    </section>\n  </main>\n  <script src=\"/app.js\"></script>\n</body>\n</html>",
    );
    proof {
        if navigation_html@.len() == 0 {
            assert(navigation_html@.len() == 0);
        }
    }
    html
}

/// The content of the page shown where a document is not part of the viewing session.
pub open spec fn deferred_content() -> Seq<char> {
    "<p>Lens can display the selected document, but the requested document is not part of this viewing session.</p><p><a href=\"/\">Return to the initial document</a></p>"@
}

/// The page shown where a document is not part of the viewing session: it says so and links
/// back to the first document.
pub fn deferred_navigation_page() -> (html: String)
    ensures
        html@ == navigation_page_text(
            "Document navigation unavailable"@,
            deferred_content(),
            Seq::empty(),
            Seq::empty(),
            false,
            None,
        ),
{
    page(
        "Document navigation unavailable",
        "<p>Lens can display the selected document, but the requested document is not part of this viewing session.</p><p><a href=\"/\">Return to the initial document</a></p>".to_owned(),
        String::new(),
        String::new(),
        false,
        None,
    )
}

/// The page links of results: the link to the next page asks for the page after the current
/// one whenever results lie beyond the current page, the link to the previous page asks for the
/// page before it whenever the current page is not the first, and with neither there are no
/// links at all.
pub proof fn lemma_page_links_ask_for_adjacent_pages(
    query: Seq<char>,
    page: nat,
    total: nat,
    current_route: Seq<char>,
)
    ensures
        page * (RESULT_LIMIT as nat) < total ==> exists|at: int|
            #[trigger] occurs_at(
                page_links_text(query, page, total, current_route),
                escaped(page_query_text(query, page + 1)) + "\" rel=\"next\">Next results</a>"@,
                at,
            ),
        page > 1 ==> exists|at: int|
            #[trigger] occurs_at(
                page_links_text(query, page, total, current_route),
                escaped(page_query_text(query, (page - 1) as nat))
                    + "\" rel=\"prev\">Previous results</a>"@,
                at,
            ),
        page <= 1 && total <= page * (RESULT_LIMIT as nat) ==> page_links_text(
            query,
            page,
            total,
            current_route,
        ) == Seq::<char>::empty(),
{
    let text = page_links_text(query, page, total, current_route);
    let opening = "<p class=\"document-result-pages\">"@;
    let previous = if page > 1 {
        "<a href=\""@ + escaped(current_route) + "?"@ + escaped(
            page_query_text(query, (page - 1) as nat),
        ) + "\" rel=\"prev\">Previous results</a>"@
    } else {
        Seq::empty()
    };
    let separator = if previous.len() > 0 {
        " "@
    } else {
        Seq::<char>::empty()
    };
    if page > 1 {
        let before = opening + "<a href=\""@ + escaped(current_route) + "?"@;
        let pattern = escaped(page_query_text(query, (page - 1) as nat))
            + "\" rel=\"prev\">Previous results</a>"@;
        assert(previous =~= "<a href=\""@ + escaped(current_route) + "?"@ + pattern);
        assert(text.subrange(before.len() as int, (before.len() + pattern.len()) as int) =~= pattern);
        assert(occurs_at(text, pattern, before.len() as int));
    }
    if page * (RESULT_LIMIT as nat) < total {
        let before = opening + previous + separator + "<a href=\""@ + escaped(current_route)
            + "?"@;
        let pattern = escaped(page_query_text(query, page + 1))
            + "\" rel=\"next\">Next results</a>"@;
        assert(text.subrange(before.len() as int, (before.len() + pattern.len()) as int) =~= pattern);
        assert(occurs_at(text, pattern, before.len() as int));
    }
}

} // verus!
