use lens::plantuml::{DiagramRenderer, RendererMode};
use lens::target::{DocumentKind, MarkdownDocument};
use lens::viewer::catalog::{
    parse_usize, utf8_longer_than, CatalogPage, CatalogResults, DocumentCatalog, NavigationRequest,
    RESULT_LIMIT,
};
use lens::viewer::navigation::{
    deferred_navigation_page, navigation_pane, page, renderer_controls,
};
use lens::viewer::rendering::{check_diagram_head, DiagramBuffer, DiagramError, MAX_DIAGRAM_BYTES};
use lens::viewer::state::{is_authorized, token_from_query, ViewerState};

fn test_catalog(identifiers: Vec<String>) -> DocumentCatalog {
    DocumentCatalog::new(
        identifiers
            .into_iter()
            .enumerate()
            .map(|(index, identifier)| (identifier, index))
            .collect(),
    )
}

fn numbered_guides() -> Vec<String> {
    (0..=50).map(|index| format!("guides/{index:03}.md")).collect()
}

#[test]
fn more_than_result_limit_then_returns_first_page_and_next_link() {
    // Arrange
    let catalog = test_catalog(numbered_guides());
    let request = NavigationRequest::from_raw_query(None);

    // Act
    let CatalogPage::Results(results) = catalog.search(&request) else {
        panic!("an empty query should return results");
    };

    // Assert
    assert_eq!(results.entries.len(), RESULT_LIMIT);
    assert_eq!(results.entries[0].identifier, "guides/000.md");
    assert_eq!(results.entries[49].identifier, "guides/049.md");
    assert!(results.has_next_page());
}

#[test]
fn case_insensitive_query_then_returns_matching_identifier_page() {
    // Arrange
    let catalog = test_catalog(vec![
        "README.md".to_owned(),
        "guides/Alpha.md".to_owned(),
        "guides/beta.md".to_owned(),
    ]);
    let request = NavigationRequest::from_raw_query(Some("query=ALPHA&page=1"));

    // Act
    let CatalogPage::Results(results) = catalog.search(&request) else {
        panic!("a short query should return results");
    };

    // Assert
    assert_eq!(results.total, 1);
    assert_eq!(results.entries.len(), 1);
    assert_eq!(results.entries[0].identifier, "guides/Alpha.md");
    assert_eq!(results.page_query(1), "query=ALPHA&page=1");
}

#[test]
fn over_limit_query_then_returns_limit_result_without_entries() {
    // Arrange
    let catalog = test_catalog(vec!["README.md".to_owned()]);
    let request = NavigationRequest::from_raw_query(Some(&format!("query={}", "a".repeat(257))));

    // Act
    let result = catalog.search(&request);

    // Assert
    assert!(matches!(result, CatalogPage::QueryTooLong { .. }));
}

#[test]
fn invalid_page_then_returns_first_matching_page() {
    // Arrange
    let catalog = test_catalog(numbered_guides());
    let request = NavigationRequest::from_raw_query(Some("page=99"));

    // Act
    let CatalogPage::Results(results) = catalog.search(&request) else {
        panic!("an empty query should return results");
    };

    // Assert
    assert_eq!(results.page, 1);
    assert_eq!(results.entries[0].identifier, "guides/000.md");
    assert!(!results.has_previous_page());
}

#[test]
fn malformed_page_then_returns_first_matching_page() {
    // Arrange
    let catalog = test_catalog(vec!["README.md".to_owned(), "guides/intro.md".to_owned()]);
    let request = NavigationRequest::from_raw_query(Some("page=not-a-number"));

    // Act
    let CatalogPage::Results(results) = catalog.search(&request) else {
        panic!("an empty query should return results");
    };

    // Assert
    assert_eq!(results.page, 1);
    assert_eq!(results.entries[0].identifier, "README.md");
}

#[test]
fn second_page_then_shows_the_rest_and_a_previous_link() {
    let catalog = test_catalog(numbered_guides());
    let request = NavigationRequest::from_raw_query(Some("page=2"));
    let CatalogPage::Results(results) = catalog.search(&request) else {
        panic!("an empty query should return results");
    };
    assert_eq!(results.page, 2);
    assert_eq!(results.entries.len(), 1);
    assert_eq!(results.entries[0].identifier, "guides/050.md");
    assert!(results.has_previous_page());
    assert!(!results.has_next_page());
}

#[test]
fn query_then_is_trimmed_and_last_values_win() {
    let request = NavigationRequest::from_raw_query(Some("query=a&query=+beta+&page=3&page=x"));
    assert_eq!(request.query.as_deref(), Some(" beta "));
    assert_eq!(request.page, None);
    let catalog = test_catalog(vec!["guides/beta.md".to_owned(), "gamma.md".to_owned()]);
    let CatalogPage::Results(results) = catalog.search(&request) else {
        panic!("a short query should return results");
    };
    assert_eq!(results.query, "beta");
    assert_eq!(results.total, 1);
}

#[test]
fn numbers_then_parse_as_usize_does() {
    assert_eq!(parse_usize("42"), Some(42));
    assert_eq!(parse_usize("+7"), Some(7));
    assert_eq!(parse_usize("+"), None);
    assert_eq!(parse_usize(""), None);
    assert_eq!(parse_usize("-1"), None);
    assert_eq!(parse_usize("99999999999999999999999"), None);
    assert!(!utf8_longer_than("測試", 6));
    assert!(utf8_longer_than("測試", 5));
}

fn pane(identifiers: Vec<String>, current: usize, route: &str) -> String {
    let catalog = test_catalog(identifiers);
    let request = NavigationRequest::from_raw_query(None);
    navigation_pane(catalog.search(&request), current, route)
}

#[test]
fn document_navigation_pane_then_lists_known_documents_and_marks_current() {
    // Act
    let navigation = pane(
        vec!["README.md".to_owned(), "guides/intro.md".to_owned()],
        1,
        "/documents/guides/intro.md",
    );

    // Assert
    assert!(navigation.contains("aria-label=\"Discovered documents\""));
    assert!(navigation.contains("href=\"/documents/README.md?query=&amp;page=1\""));
    assert!(navigation
        .contains("href=\"/documents/guides/intro.md?query=&amp;page=1\" aria-current=\"page\""));
    assert!(!navigation.contains(".private.md"));
    assert_eq!(navigation.matches("aria-current=\"page\"").count(), 1);
}

#[test]
fn document_page_with_navigation_then_exposes_an_accessible_visibility_control() {
    // Arrange
    let navigation = pane(vec!["README.md".to_owned()], 0, "/");

    // Act
    let document_page = page("README.md", String::new(), navigation, String::new(), false, None);

    // Assert
    assert!(document_page.contains("data-document-navigation-control hidden"));
    assert!(document_page.contains("data-document-navigation-toggle"));
    assert!(document_page.contains("aria-controls=\"document-navigation\""));
    assert!(document_page.contains("aria-expanded=\"true\""));
    assert!(document_page.contains("<nav id=\"document-navigation\""));
}

#[test]
fn document_navigation_pane_with_html_identifier_then_escapes_identifier() {
    // Act
    let navigation = pane(vec!["guides/<unsafe>.md".to_owned()], 0, "/");

    // Assert
    assert!(navigation.contains("/documents/guides/&lt;unsafe&gt;.md"));
    assert!(!navigation.contains("/documents/guides/<unsafe>.md"));
}

#[test]
fn enabled_renderer_then_exposes_its_status_and_disable_control() {
    // Act
    let controls = renderer_controls(&DiagramRenderer::from_mode(RendererMode::Public));

    // Assert
    assert!(controls.contains("Diagram renderer: public."));
    assert!(controls.contains("data-disable-renderer"));
    let disabled = renderer_controls(&DiagramRenderer::from_mode(RendererMode::Disabled));
    assert!(disabled.contains("Diagram rendering is disabled for this viewing session."));
}

#[test]
fn more_than_result_limit_then_shows_first_page_and_next_link() {
    // Act
    let navigation = pane(numbered_guides(), 0, "/");

    // Assert
    assert_eq!(navigation.matches("data-document-navigation-item").count(), 50);
    assert!(navigation.contains("Next results"));
    assert!(!navigation.contains("guides/050.md"));
}

#[test]
fn deferred_document_navigation_then_explains_how_to_return() {
    // Arrange
    let expected_message = "requested document is not part of this viewing session";

    // Act
    let page = deferred_navigation_page();

    // Assert
    assert!(page.contains(expected_message));
    assert!(page.contains("href=\"/\""));
}

#[test]
fn query_too_long_then_pane_explains_the_limit() {
    let catalog = test_catalog(vec!["README.md".to_owned()]);
    let request = NavigationRequest::from_raw_query(Some(&format!("query={}", "a".repeat(300))));
    let navigation = navigation_pane(catalog.search(&request), 0, "/");
    assert!(navigation.contains("Search queries are limited to 256 UTF-8 bytes."));
}

fn test_document(identifier: &str, source: &str) -> MarkdownDocument {
    MarkdownDocument {
        identifier: identifier.to_owned(),
        canonical_path: format!("/repo/{identifier}"),
        source: source.to_owned(),
        kind: DocumentKind::Markdown,
    }
}

fn test_state() -> ViewerState {
    ViewerState::new(
        vec![
            test_document("README.md", "# Read me"),
            test_document("guides/intro.md", "# Introduction"),
        ],
        Vec::new(),
        0,
        DiagramRenderer::from_mode(RendererMode::Public),
        "https://www.plantuml.com/plantuml".to_owned(),
        "secret".to_owned(),
    )
}

#[test]
fn viewer_state_then_knows_each_document_at_revision_zero() {
    let state = test_state();
    assert_eq!(state.document_count(), 2);
    assert_eq!(state.known_document_index("guides/intro.md"), Some(1));
    assert_eq!(state.known_document_index(".private.md"), None);
    assert_eq!(state.document_revision(1), Some(0));
    assert_eq!(state.document_revision(5), None);
    let page = state.document_page(1).expect("known document should have a page");
    assert!(page.contains("Introduction"));
    assert!(page.contains("data-document-revision=\"0\""));
    assert!(state.document_page(2).is_none());
}

#[test]
fn changed_known_document_then_updates_rendering_and_revision() {
    let mut state = test_state();
    assert!(!state.refresh_document(0, "# Read me".to_owned(), &[]));
    assert_eq!(state.document_revision(0), Some(0));
    assert!(state.refresh_document(0, "# Changed\n\n```plantuml\n@startuml\n@enduml\n```".to_owned(), &[]));
    assert_eq!(state.document_revision(0), Some(1));
    assert!(state.document_page(0).expect("page").contains("Changed"));
    assert_eq!(
        state.diagram_source(0, 0).as_deref(),
        Some("@startuml\n@enduml\n")
    );
    assert_eq!(state.document_revision(1), Some(0));
}

#[test]
fn session_token_then_authorizes_only_its_query() {
    assert_eq!(token_from_query("a=1&token=abc=d").as_deref(), Some("abc=d"));
    assert_eq!(token_from_query("token&x=1"), None);
    assert!(is_authorized(Some("token=secret"), "secret"));
    assert!(!is_authorized(Some("token=other"), "secret"));
    assert!(!is_authorized(None, "secret"));
    assert!(is_authorized(Some("token=secret&token=other"), "secret"));
}

#[test]
fn diagram_answers_then_are_checked_before_reading() {
    assert!(check_diagram_head(true, "200 OK".to_owned(), false, Some("image/svg+xml; charset=utf-8"), Some(11)).is_ok());
    match check_diagram_head(false, "503 Service Unavailable".to_owned(), false, None, None) {
        Err(error) => assert_eq!(error.message(), "The PlantUML server returned 503 Service Unavailable"),
        Ok(()) => panic!("a failed status should be refused"),
    }
    assert!(matches!(
        check_diagram_head(true, "200 OK".to_owned(), true, Some("image/svg+xml"), None),
        Err(DiagramError::InvalidDiagram)
    ));
    assert!(matches!(
        check_diagram_head(true, "200 OK".to_owned(), false, Some("text/html"), None),
        Err(DiagramError::NotSvg)
    ));
    assert!(matches!(
        check_diagram_head(true, "200 OK".to_owned(), false, Some("image/svg+xml"), Some((MAX_DIAGRAM_BYTES + 1) as u64)),
        Err(DiagramError::Oversized)
    ));
    let mut buffer = DiagramBuffer::new();
    assert!(buffer.append(b"<svg></svg>").is_ok());
    assert!(matches!(buffer.append(&vec![0u8; MAX_DIAGRAM_BYTES]), Err(DiagramError::Oversized)));
    assert_eq!(buffer.into_bytes(), b"<svg></svg>".to_vec());
}

#[test]
fn page_query_then_form_encodes_the_query() {
    let results = CatalogResults {
        query: "a b&c/é*-._".to_owned(),
        page: 2,
        total: 0,
        entries: Vec::new(),
    };
    assert_eq!(results.page_query(3), "query=a+b%26c%2F%C3%A9*-._&page=3");
}
