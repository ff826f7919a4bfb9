use vstd::prelude::*;

use crate::markdown::{escaped, push_escaped};
use crate::text::{
    chars_of, decimal_text, find_from, first_occurrence, lemma_first_occurrence,
    lemma_first_occurrence_shift, occurs_at, push_char, push_decimal, push_range,
};

verus! {

/// The start of a link to a document route.
pub open spec fn document_link_marker() -> Seq<char> {
    "href=\"/documents/"@
}

/// The start of a diagram image request.
pub open spec fn diagram_source_marker() -> Seq<char> {
    "src=\"/diagrams/"@
}

/// The earliest document link or diagram request in a text, with the length of its attribute
/// name, `=` and opening quote.
pub open spec fn next_capability_url(s: Seq<char>) -> Option<(int, int)> {
    let document = first_occurrence(s, document_link_marker(), 0);
    let diagram = first_occurrence(s, diagram_source_marker(), 0);
    match (document, diagram) {
        (Some(a), Some(b)) => if a <= b {
            Some((a, 6))
        } else {
            Some((b, 5))
        },
        (Some(a), None) => Some((a, 6)),
        (None, Some(b)) => Some((b, 5)),
        (None, None) => None,
    }
}

pub proof fn lemma_next_capability_url(s: Seq<char>)
    ensures
        next_capability_url(s) matches Some((at, prefix)) ==> 0 <= at && 5 <= prefix && at
            + prefix <= s.len(),
{
    reveal_strlit("href=\"/documents/");
    reveal_strlit("src=\"/diagrams/");
    lemma_first_occurrence(s, document_link_marker(), 0);
    lemma_first_occurrence(s, diagram_source_marker(), 0);
}

/// A URL with the session token added to its query, before its fragment.
pub open spec fn with_token(url: Seq<char>, token: Seq<char>) -> Seq<char> {
    let hash = first_occurrence(url, seq!['#'], 0);
    let base = match hash {
        Some(h) => url.take(h),
        None => url,
    };
    let fragment = match hash {
        Some(h) => url.skip(h),
        None => Seq::empty(),
    };
    base + (if base.contains('?') {
        "&token="@
    } else {
        "?token="@
    }) + token + fragment
}

/// HTML with the session token added to the URL of every document link and diagram request.
pub open spec fn with_capability(s: Seq<char>, token: Seq<char>) -> Seq<char>
    decreases s.len(),
{
    match next_capability_url(s) {
        None => s,
        Some((at, prefix)) => {
            proof {
                lemma_next_capability_url(s);
            }
            let url_start = at + prefix;
            let rest = s.skip(url_start);
            match first_occurrence(rest, seq!['"'], 0) {
                Some(quote) => {
                    proof {
                        lemma_first_occurrence(rest, seq!['"'], 0);
                    }
                    s.take(url_start) + with_token(rest.take(quote), token) + with_capability(
                        rest.skip(quote),
                        token,
                    )
                },
                None => s.take(url_start) + with_capability(rest, token),
            }
        },
    }
}

fn push_with_token(out: &mut String, url: &[char], token: &str)
    ensures
        final(out)@ == old(out)@ + with_token(url@, token@),
{
    let ghost start = out@;
    let hash_mark = ['#'];
    assert(hash_mark@ =~= seq!['#']);
    let hash = find_from(url, &hash_mark, 0);
    let base_end = match hash {
        Some(h) => {
            proof {
                lemma_first_occurrence(url@, seq!['#'], 0);
            }
            h
        },
        None => url.len(),
    };
    let question_mark = ['?'];
    assert(question_mark@ =~= seq!['?']);
    let ghost base = url@.take(base_end as int);
    let mut index: usize = 0;
    let mut has_query = false;
    while index < base_end
        invariant
            base_end <= url@.len(),
            index <= base_end,
            has_query == exists|i: int| 0 <= i < index && #[trigger] url@[i] == '?',
        decreases base_end - index,
    {
        if url[index] == '?' {
            has_query = true;
        }
        index = index + 1;
    }
    proof {
        if has_query {
            let i = choose|i: int| 0 <= i < index && #[trigger] url@[i] == '?';
            assert(base[i] == '?');
        } else {
            assert forall|i: int| 0 <= i < base.len() implies base[i] != '?' by {
                assert(base[i] == url@[i]);
            }
        }
    }
    push_range(out, url, 0, base_end);
    if has_query {
        out.append("&token=");
    } else {
        out.append("?token=");
    }
    out.append(token);
    push_range(out, url, base_end, url.len());
    proof {
        assert(url@.subrange(0, base_end as int) =~= base);
        assert(url@.take(base_end as int) =~= base);
        if hash is Some {
            assert(url@.subrange(base_end as int, url@.len() as int) =~= url@.skip(
                base_end as int,
            ));
        } else {
            assert(url@.subrange(base_end as int, url@.len() as int) =~= Seq::<char>::empty());
        }
    }
    assert(out@ =~= start + with_token(url@, token@));
}

/// Adds the session token to the URL of every document link and diagram request of a page,
/// so that following them stays inside the viewing session.
pub fn inject_capability(html: &str, token: &str) -> (result: String)
    ensures
        result@ == with_capability(html@, token@),
{
    let chars = chars_of(html);
    let s = chars.as_slice();
    let document_marker = chars_of("href=\"/documents/");
    let diagram_marker = chars_of("src=\"/diagrams/");
    let quote = ['"'];
    assert(quote@ =~= seq!['"']);
    let mut result = String::new();
    let mut cursor: usize = 0;
    assert(s@.skip(0) =~= s@);
    while cursor < s.len()
        invariant
            s@ == html@,
            document_marker@ == document_link_marker(),
            diagram_marker@ == diagram_source_marker(),
            quote@ == seq!['"'],
            cursor <= s@.len(),
            with_capability(html@, token@) == result@ + with_capability(
                s@.skip(cursor as int),
                token@,
            ),
        decreases s@.len() - cursor,
    {
        let ghost rest = s@.skip(cursor as int);
        proof {
            lemma_first_occurrence_shift(s@, document_link_marker(), cursor as int, 0);
            lemma_first_occurrence_shift(s@, diagram_source_marker(), cursor as int, 0);
            lemma_next_capability_url(rest);
        }
        let document = find_from(s, document_marker.as_slice(), cursor);
        let diagram = find_from(s, diagram_marker.as_slice(), cursor);
        let next = match (document, diagram) {
            (Some(a), Some(b)) => if a <= b {
                Some((a, 6usize))
            } else {
                Some((b, 5usize))
            },
            (Some(a), None) => Some((a, 6usize)),
            (None, Some(b)) => Some((b, 5usize)),
            (None, None) => None,
        };
        match next {
            Some((at, prefix)) => {
                assert(next_capability_url(rest) == Some(((at - cursor) as int, prefix as int)));
                let url_start = at + prefix;
                push_range(&mut result, s, cursor, url_start);
                let ghost tail = rest.skip(url_start - cursor);
                assert(tail =~= s@.skip(url_start as int));
                proof {
                    lemma_first_occurrence_shift(s@, seq!['"'], url_start as int, 0);
                }
                match find_from(s, &quote, url_start) {
                    Some(url_end) => {
                        proof {
                            lemma_first_occurrence(s@, seq!['"'], url_start as int);
                        }
                        let url = chars_of_range(s, url_start, url_end);
                        push_with_token(&mut result, url.as_slice(), token);
                        assert(tail.take(url_end - url_start) =~= url@);
                        assert(tail.skip(url_end - url_start) =~= s@.skip(url_end as int));
                        assert(rest.take(url_start - cursor) =~= s@.subrange(
                            cursor as int,
                            url_start as int,
                        ));
                        assert(first_occurrence(tail, seq!['"'], 0) == Some(
                            (url_end - url_start) as int,
                        ));
                        assert(with_capability(rest, token@) == rest.take(url_start - cursor)
                            + with_token(url@, token@) + with_capability(
                            s@.skip(url_end as int),
                            token@,
                        ));
                        cursor = url_end;
                    },
                    None => {
                        assert(rest.take(url_start - cursor) =~= s@.subrange(
                            cursor as int,
                            url_start as int,
                        ));
                        assert(first_occurrence(tail, seq!['"'], 0) is None);
                        assert(with_capability(rest, token@) == rest.take(url_start - cursor)
                            + with_capability(s@.skip(url_start as int), token@));
                        cursor = url_start;
                    },
                }
            },
            None => {
                assert(next_capability_url(rest) is None);
                assert(with_capability(rest, token@) == rest);
                proof {
                    lemma_capability_of_empty(token@);
                }
                push_range(&mut result, s, cursor, s.len());
                assert(rest =~= s@.subrange(cursor as int, s@.len() as int));
                assert(s@.skip(s@.len() as int) =~= Seq::<char>::empty());
                cursor = s.len();
            },
        }
    }
    assert(s@.skip(cursor as int) =~= Seq::<char>::empty());
    proof {
        lemma_capability_of_empty(token@);
    }
    result
}

proof fn lemma_capability_of_empty(token: Seq<char>)
    ensures
        with_capability(Seq::empty(), token) == Seq::<char>::empty(),
{
    reveal_strlit("href=\"/documents/");
    reveal_strlit("src=\"/diagrams/");
}

/// The characters of a range of a slice.
fn chars_of_range(s: &[char], from: usize, to: usize) -> (range: Vec<char>)
    requires
        from <= to <= s@.len(),
    ensures
        range@ == s@.subrange(from as int, to as int),
{
    let mut range: Vec<char> = Vec::new();
    let mut index = from;
    while index < to
        invariant
            from <= index <= to <= s@.len(),
            range@ == s@.subrange(from as int, index as int),
        decreases to - index,
    {
        range.push(s[index]);
        index = index + 1;
        assert(range@ =~= s@.subrange(from as int, index as int));
    }
    range
}


/// The attributes that let the page script watch a document for changes.
pub open spec fn refresh_attributes(document_revision: Option<(Seq<char>, nat)>) -> Seq<char> {
    match document_revision {
        Some((document_id, revision)) => " data-document-id=\""@ + escaped(document_id)
            + "\" data-document-revision=\""@ + decimal_text(revision) + "\""@,
        None => Seq::empty(),
    }
}

/// A viewer page: the escaped title, the document with the session token on its links, the
/// token on the page's own assets, no referrer, and the refresh attributes of its document.
pub open spec fn page_text(
    title: Seq<char>,
    document_html: Seq<char>,
    document_revision: Option<(Seq<char>, nat)>,
    session_token: Seq<char>,
) -> Seq<char> {
    "<!doctype html>\n<html lang=\"en\">\n<head>\n  <meta charset=\"utf-8\">\n  <meta name=\"viewport\" content=\"width=device-width, initial-scale=1\">\n  <meta name=\"referrer\" content=\"no-referrer\">\n  <title>Lens: "@
        + escaped(title) + "</title>\n  <link rel=\"stylesheet\" href=\"/app.css?token="@
        + session_token + "\">\n</head>\n<body>\n  <main"@ + refresh_attributes(document_revision)
        + " data-session-token=\""@ + session_token
        + "\">\n    <section class=\"document-content\">\n      <header class=\"document-header\"><p class=\"eyebrow\">Lens</p><h1>"@
        + escaped(title) + "</h1></header>\n      <article>"@ + with_capability(
        document_html,
        session_token,
    ) + "</article>\n    </section>\n  </main>\n  <script src=\"/app.js?token="@ + session_token
        + "\"></script>\n</body>\n</html>"@
}

/// The spec form of an optional document identifier and revision.
pub open spec fn revision_view(document_revision: Option<(&str, u64)>) -> Option<(Seq<char>, nat)> {
    match document_revision {
        Some((document_id, revision)) => Some((document_id@, revision as nat)),
        None => None,
    }
}

/// Writes a viewer page around a rendered document.
pub fn page(
    title: &str,
    document_html: String,
    document_revision: Option<(&str, u64)>,
    session_token: &str,
) -> (html: String)
    ensures
        html@ == page_text(title@, document_html@, revision_view(document_revision), session_token@),
{
    let linked = inject_capability(document_html.as_str(), session_token);
    let mut html = String::new();
    html.append(
        "<!doctype html>\n<html lang=\"en\">\n<head>\n  <meta charset=\"utf-8\">\n  <meta name=\"viewport\" content=\"width=device-width, initial-scale=1\">\n  <meta name=\"referrer\" content=\"no-referrer\">\n  <title>Lens: ",
    );
    push_escaped(&mut html, title);
    html.append("</title>\n  <link rel=\"stylesheet\" href=\"/app.css?token=");
    html.append(session_token);
    html.append("\">\n</head>\n<body>\n  <main");
    match document_revision {
        Some((document_id, revision)) => {
            html.append(" data-document-id=\"");
            push_escaped(&mut html, document_id);
            html.append("\" data-document-revision=\"");
            push_decimal(&mut html, revision);
            html.append("\"");
        },
        None => {},
    }
    html.append(" data-session-token=\"");
    html.append(session_token);
    html.append(
        "\">\n    <section class=\"document-content\">\n      <header class=\"document-header\"><p class=\"eyebrow\">Lens</p><h1>",
    );
    push_escaped(&mut html, title);
    html.append("</h1></header>\n      <article>");
    html.append(linked.as_str());
    html.append("</article>\n    </section>\n  </main>\n  <script src=\"/app.js?token=");
    html.append(session_token);
    html.append("\"></script>\n</body>\n</html>");
    assert(html@ =~= page_text(
        title@,
        document_html@,
        revision_view(document_revision),
        session_token@,
    ));
    html
}

/// The content of the page shown for a document outside the viewing session.
pub open spec fn unavailable_content(session_token: Seq<char>) -> Seq<char> {
    "<p>Lens can display the selected document, but the requested document is not part of this viewing session.</p><p><a href=\"/?token="@
        + session_token + "\">Return to the initial document</a></p>"@
}

/// The page shown for a document that is not part of the viewing session.
pub fn document_unavailable_page(session_token: &str) -> (html: String)
    ensures
        html@ == page_text(
            "Document unavailable"@,
            unavailable_content(session_token@),
            None,
            session_token@,
        ),
{
    let mut content = String::new();
    content.append(
        "<p>Lens can display the selected document, but the requested document is not part of this viewing session.</p><p><a href=\"/?token=",
    );
    content.append(session_token);
    content.append("\">Return to the initial document</a></p>");
    assert(content@ =~= unavailable_content(session_token@));
    page("Document unavailable", content, None, session_token)
}

/// The content security policy of every viewer page.
pub open spec fn content_security_policy_text() -> Seq<char> {
    "default-src 'self'; base-uri 'none'; img-src 'self'; object-src 'none'; script-src 'self'; style-src 'self'"@
}

/// The content security policy of every viewer page: only the viewer's own scripts, styles
/// and images, no plugins, and no base URL.
pub fn content_security_policy() -> (policy: &'static str)
    ensures
        policy@ == content_security_policy_text(),
{
    "default-src 'self'; base-uri 'none'; img-src 'self'; object-src 'none'; script-src 'self'; style-src 'self'"
}

/// An embedded asset without one final line ending, `\r\n` or `\n`.
pub open spec fn without_final_line_ending(asset: Seq<char>) -> Seq<char> {
    if asset.len() >= 2 && asset[asset.len() - 2] == '\r' && asset.last() == '\n' {
        asset.take(asset.len() - 2)
    } else if asset.len() >= 1 && asset.last() == '\n' {
        asset.drop_last()
    } else {
        asset
    }
}

/// An embedded asset as it is served: without its final line ending.
pub fn embedded_asset(asset: &'static str) -> (served: &'static str)
    ensures
        served@ == without_final_line_ending(asset@),
{
    let length = asset.unicode_len();
    if length >= 2 && asset.get_char(length - 2) == '\r' && asset.get_char(length - 1) == '\n' {
        asset.substring_char(0, length - 2)
    } else if length >= 1 && asset.get_char(length - 1) == '\n' {
        asset.substring_char(0, length - 1)
    } else {
        asset
    }
}


/// The page script, with a final line ending as it is kept in the repository.
pub const APP_SCRIPT: &'static str = r#"const markDiagramDisabled = (figure) => {
  const image = figure.querySelector('[data-diagram]');
  if (image) image.removeAttribute('src');
  figure.querySelector('.diagram-error').hidden = true;
  figure.querySelector('[data-diagram-retry]').hidden = true;
  figure.querySelector('[data-diagram-disabled]').hidden = false;
  figure.querySelector('.diagram-source').open = true;
};

const navigationControl = document.querySelector('[data-document-navigation-control]');
const navigationToggle = document.querySelector('[data-document-navigation-toggle]');
const navigationPane = document.querySelector('#document-navigation');
const documentLayout = document.querySelector('main');
if (navigationControl && navigationToggle && navigationPane && documentLayout) {
  const navigationPaneStateKey = 'lens.documentNavigationCollapsed';
  const setNavigationPaneCollapsed = (collapsed) => {
    navigationPane.hidden = collapsed;
    documentLayout.dataset.documentNavigationCollapsed = String(collapsed);
    navigationToggle.setAttribute('aria-expanded', String(!collapsed));
    navigationToggle.textContent = collapsed ? 'Show documents' : 'Hide documents';
  };
  let collapsed = false;
  try {
    collapsed = sessionStorage.getItem(navigationPaneStateKey) === 'true';
  } catch {
    // Keep the navigation pane visible when browser session storage is unavailable.
  }
  setNavigationPaneCollapsed(collapsed);
  navigationControl.hidden = false;
  navigationToggle.addEventListener('click', () => {
    collapsed = !navigationPane.hidden;
    setNavigationPaneCollapsed(collapsed);
    try {
      sessionStorage.setItem(navigationPaneStateKey, String(collapsed));
    } catch {
      // Retain the current page's visibility when browser session storage is unavailable.
    }
  });
}

for (const image of document.querySelectorAll('[data-diagram]')) {
  const revealFailure = () => {
    const figure = image.closest('.diagram');
    if (document.documentElement.dataset.diagramRenderingDisabled === 'true') {
      markDiagramDisabled(figure);
      return;
    }
    figure.querySelector('.diagram-error').hidden = false;
    figure.querySelector('[data-diagram-retry]').hidden = false;
    figure.querySelector('.diagram-source').open = true;
  };
  const retry = image.closest('.diagram').querySelector('[data-diagram-retry]');
  retry.addEventListener('click', () => {
    image.closest('.diagram').querySelector('.diagram-error').hidden = true;
    retry.hidden = true;
    const retryUrl = new URL(image.src, window.location.origin);
    retryUrl.searchParams.set('retry', Date.now().toString());
    image.src = retryUrl.toString();
  });
  image.addEventListener('error', revealFailure);
  if (image.complete && image.naturalWidth === 0) {
    revealFailure();
  }
}

const disableRenderer = document.querySelector('[data-disable-renderer]');
if (disableRenderer) {
  disableRenderer.addEventListener('click', async () => {
    disableRenderer.disabled = true;
    try {
      const response = await fetch('/renderer/disable', { method: 'POST' });
      if (!response.ok) throw new Error('disable failed');
      document.documentElement.dataset.diagramRenderingDisabled = 'true';
      document.querySelector('[data-renderer-status]').textContent =
        'Diagram rendering is disabled for this viewing session.';
      for (const figure of document.querySelectorAll('[data-diagram-container]')) {
        markDiagramDisabled(figure);
      }
      disableRenderer.remove();
    } catch {
      disableRenderer.disabled = false;
    }
  });
}

const documentView = document.querySelector('[data-document-id][data-document-revision]');
if (documentView) {
  const documentId = documentView.dataset.documentId;
  let revision = documentView.dataset.documentRevision;
  let reloading = false;

  window.setInterval(async () => {
    try {
      const response = await fetch(`/revisions/${encodeURIComponent(documentId)}`, { cache: 'no-store' });
      if (!response.ok) return;
      const currentRevision = await response.text();
      if (currentRevision !== revision && !reloading) {
        reloading = true;
        window.location.reload();
      }
    } catch {
      // Retain the readable document and try again on the next interval.
    }
  }, 500);
}
"#;

/// The page stylesheet, with a final line ending as it is kept in the repository.
pub const APP_STYLESHEET: &'static str = r#"* { box-sizing: border-box; }
body { margin: 0; background: #f4f1ea; color: #1d2826; font-family: Georgia, serif; line-height: 1.55; }
main { width: min(1200px, calc(100% - 2rem)); margin: 3rem auto 5rem; display: grid; grid-template-columns: minmax(13rem, .35fr) minmax(0, 920px); gap: 2rem; align-items: start; }
.document-navigation-control { grid-column: 1; grid-row: 1; }
.document-navigation-control button { padding: .35rem .65rem; border: 1px solid #1d2826; background: #1d2826; color: #fffdf8; font: inherit; }
.document-navigation { position: sticky; top: 1rem; grid-column: 1; grid-row: 2; padding: 1rem; border: 1px solid #b6b0a4; background: #fffdf8; font-family: system-ui, sans-serif; }
.document-navigation h2 { margin: 0 0 .75rem; font-size: 1rem; }
.document-navigation label { display: block; font-size: .8rem; font-weight: 700; }
.document-navigation input { width: 100%; margin: .25rem 0 .75rem; padding: .4rem; border: 1px solid #8d897e; font: inherit; }
.document-search button { padding: .35rem .65rem; border: 1px solid #1d2826; background: #1d2826; color: #fffdf8; font: inherit; }
.document-navigation ul { margin: 0; padding: 0; list-style: none; }
.document-navigation li + li { margin-top: .35rem; }
.document-navigation a { color: #1d2826; overflow-wrap: anywhere; }
.document-navigation a[aria-current="page"] { color: #8b3f21; font-weight: 800; text-decoration-thickness: .18em; }
.document-navigation [role="status"] { margin: .75rem 0; color: #8b3f21; font-size: .875rem; }
.document-result-pages { display: flex; gap: .75rem; margin: .75rem 0 0; }
.document-content { grid-column: 2; grid-row: 1 / span 2; min-width: 0; }
main[data-document-navigation-collapsed="true"] { grid-template-columns: auto minmax(0, 1fr); }
header { border-bottom: 3px solid #1d2826; margin-bottom: 2rem; }
h1 { font-size: clamp(2rem, 5vw, 3.5rem); line-height: 1.05; margin: 0 0 1.2rem; overflow-wrap: anywhere; }
.eyebrow { color: #8b3f21; font-family: system-ui, sans-serif; font-size: .75rem; font-weight: 800; letter-spacing: .14em; margin: 0 0 .4rem; text-transform: uppercase; }
article > :first-child { margin-top: 0; }
pre { overflow: auto; padding: 1rem; background: #e5e0d7; }
code { font-family: ui-monospace, SFMono-Regular, Consolas, monospace; }
.diagram { margin: 1.5rem 0; padding: 1rem; border: 1px solid #b6b0a4; background: #fffdf8; }
.diagram img { display: block; width: 100%; height: auto; }
.diagram-error { color: #9c2f19; font-family: system-ui, sans-serif; font-weight: 700; }
.diagram-disabled { color: #555147; font-family: system-ui, sans-serif; font-weight: 700; }
.diagram button { margin-top: .75rem; }
.diagram-source { margin-top: .75rem; }
.renderer-controls { margin: 0 0 1.5rem; padding: .75rem 1rem; border-left: 4px solid #8b3f21; background: #fffdf8; font-family: system-ui, sans-serif; }
.renderer-controls p { margin: 0; font-weight: 700; }
.renderer-controls button { margin-top: .65rem; }
.document-metadata { margin: 0 0 1.5rem; padding: 1rem; border: 1px solid #b6b0a4; background: #fffdf8; font-family: system-ui, sans-serif; }
.document-metadata h2 { margin: 0 0 .75rem; font-size: 1rem; }
.document-metadata dl { display: grid; gap: .6rem; margin: 0; }
.document-metadata dl div { display: grid; gap: .15rem; }
.document-metadata dt { color: #5c5a54; font-size: .8rem; font-weight: 800; }
.document-metadata dd { margin: 0; overflow-wrap: anywhere; }
.document-metadata ul { margin: .25rem 0 0; padding-left: 1.2rem; }
.document-metadata dl dl { margin: .25rem 0 0; padding-left: .75rem; border-left: 2px solid #b6b0a4; }
.frontmatter-error { margin: 0 0 1.5rem; padding: .75rem 1rem; border-left: 4px solid #8b3f21; background: #fff4ed; font-family: system-ui, sans-serif; }
.frontmatter-error p { margin: .35rem 0; }
@media (max-width: 760px) { main { width: min(100% - 1rem, 920px); margin-top: 1.5rem; display: block; } .document-navigation-control { margin-bottom: 1rem; } .document-navigation { position: static; margin-bottom: 1.5rem; } .diagram { padding: .5rem; } }
"#;

/// The page script as it is served.
pub fn app_script() -> (script: &'static str)
    ensures
        script@ == without_final_line_ending(APP_SCRIPT@),
{
    embedded_asset(APP_SCRIPT)
}

/// The page stylesheet as it is served.
pub fn app_stylesheet() -> (stylesheet: &'static str)
    ensures
        stylesheet@ == without_final_line_ending(APP_STYLESHEET@),
{
    embedded_asset(APP_STYLESHEET)
}

proof fn lemma_first_occurrence_at(s: Seq<char>, pattern: Seq<char>, at: int)
    requires
        occurs_at(s, pattern, at),
        forall|k: int| 0 <= k < at ==> !occurs_at(s, pattern, k),
    ensures
        first_occurrence(s, pattern, 0) == Some(at),
{
    lemma_first_occurrence(s, pattern, 0);
    assert(at >= 0);
    if first_occurrence(s, pattern, 0) is None {
        assert(!occurs_at(s, pattern, at));
    }
    let found = first_occurrence(s, pattern, 0).unwrap();
    if at < found {
        assert(!occurs_at(s, pattern, at));
    }
}

proof fn lemma_marker_starts(s: Seq<char>, at: int)
    ensures
        occurs_at(s, document_link_marker(), at) ==> s[at] == 'h',
        occurs_at(s, diagram_source_marker(), at) ==> s[at] == 's',
{
    reveal_strlit("href=\"/documents/");
    reveal_strlit("src=\"/diagrams/");
    if occurs_at(s, document_link_marker(), at) {
        assert(s.subrange(at, at + document_link_marker().len())[0] == s[at]);
    }
    if occurs_at(s, diagram_source_marker(), at) {
        assert(s.subrange(at, at + diagram_source_marker().len())[0] == s[at]);
    }
}

/// A page is left as it is where it holds no document link and no diagram request.
pub proof fn lemma_no_url_unchanged(s: Seq<char>, token: Seq<char>)
    requires
        forall|k: int|
            !occurs_at(s, document_link_marker(), k) && !occurs_at(s, diagram_source_marker(), k),
    ensures
        with_capability(s, token) == s,
{
    lemma_first_occurrence(s, document_link_marker(), 0);
    lemma_first_occurrence(s, diagram_source_marker(), 0);
}

/// The earliest document link or diagram request of a page gets the session token first,
/// whichever of the two kinds comes first: the text up to its URL is kept as it is, the URL up
/// to its closing quote gets the token, and the rest of the page is treated in the same way.
/// So every document link and diagram request gets the token, in whatever order they stand.
pub proof fn lemma_earliest_url_gets_token(
    s: Seq<char>,
    token: Seq<char>,
    at: int,
    attribute: int,
    quote: int,
)
    requires
        (occurs_at(s, document_link_marker(), at) && attribute == 6) || (occurs_at(
            s,
            diagram_source_marker(),
            at,
        ) && attribute == 5),
        forall|k: int|
            0 <= k < at ==> !occurs_at(s, document_link_marker(), k) && !occurs_at(
                s,
                diagram_source_marker(),
                k,
            ),
        at + attribute <= quote < s.len(),
        s[quote] == '"',
        forall|k: int| at + attribute <= k < quote ==> s[k] != '"',
    ensures
        with_capability(s, token) == s.take(at + attribute) + with_token(
            s.subrange(at + attribute, quote),
            token,
        ) + with_capability(s.skip(quote), token),
{
    let document = document_link_marker();
    let diagram = diagram_source_marker();
    lemma_marker_starts(s, at);
    lemma_first_occurrence(s, document, 0);
    lemma_first_occurrence(s, diagram, 0);
    if occurs_at(s, document, at) {
        lemma_first_occurrence_at(s, document, at);
        assert(!occurs_at(s, diagram, at));
        if first_occurrence(s, diagram, 0) is Some {
            let b = first_occurrence(s, diagram, 0).unwrap();
            assert(occurs_at(s, diagram, b));
            lemma_marker_starts(s, b);
            assert(b > at);
        }
    } else {
        lemma_first_occurrence_at(s, diagram, at);
        assert(!occurs_at(s, document, at));
        if first_occurrence(s, document, 0) is Some {
            let a = first_occurrence(s, document, 0).unwrap();
            assert(occurs_at(s, document, a));
            lemma_marker_starts(s, a);
            assert(a > at);
        }
    }
    assert(next_capability_url(s) == Some((at, attribute)));
    let url_start = at + attribute;
    let rest = s.skip(url_start);
    let end = quote - url_start;
    assert forall|k: int| 0 <= k < end implies !occurs_at(rest, seq!['"'], k) by {
        if occurs_at(rest, seq!['"'], k) {
            assert(rest.subrange(k, k + 1)[0] == rest[k]);
            assert(rest[k] == s[url_start + k]);
        }
    }
    assert(rest.subrange(end, end + 1) =~= seq!['"']);
    lemma_first_occurrence_at(rest, seq!['"'], end);
    assert(rest.take(end) =~= s.subrange(url_start, quote));
    assert(rest.skip(end) =~= s.skip(quote));
}

/// A URL given the session token holds `token=` and the token, and a URL without a fragment
/// stays in front of it.
pub proof fn lemma_token_added(url: Seq<char>, token: Seq<char>)
    ensures
        exists|at: int| #[trigger] occurs_at(with_token(url, token), "token="@ + token, at),
        !url.contains('#') ==> with_token(url, token).take(url.len() as int) == url,
{
    reveal_strlit("&token=");
    reveal_strlit("?token=");
    reveal_strlit("token=");
    let hash_seq = seq!['#'];
    lemma_first_occurrence(url, hash_seq, 0);
    let hash = first_occurrence(url, hash_seq, 0);
    let base = match hash {
        Some(h) => url.take(h),
        None => url,
    };
    let result = with_token(url, token);
    assert(result.subrange(base.len() as int + 1, base.len() as int + 1 + 6 + token.len() as int) =~= "token="@ + token);
    assert(occurs_at(result, "token="@ + token, base.len() as int + 1));
    if !url.contains('#') {
        if hash is Some {
            let h = hash.unwrap();
            assert(url.subrange(h, h + 1)[0] == url[h]);
            assert(url.contains(url[h]));
        }
        assert(result.take(url.len() as int) =~= url);
    }
}

} // verus!
