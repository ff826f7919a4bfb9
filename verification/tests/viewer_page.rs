use lens::viewer::browser::{browser_command, BrowserCommand, BrowserPlatform};
use lens::viewer::known_documents::KnownDocuments;
use lens::viewer::page::{content_security_policy, document_unavailable_page, embedded_asset, inject_capability, page};

const TEST_TOKEN: &str = "test-token";

#[test]
fn embedded_asset_with_repository_newline_then_omits_only_final_line_ending() {
    // Arrange
    let assets = ["content\n", "content\r\n", "content"];

    // Act
    let bodies = assets.map(embedded_asset);

    // Assert
    assert_eq!(bodies, ["content", "content", "content"]);
}

#[test]
fn document_page_then_omits_document_navigation_controls() {
    // Arrange
    let document_content = "<p>Document content</p>";

    // Act
    let document_page = page("README.md", document_content.to_owned(), None, TEST_TOKEN);

    // Assert
    assert!(document_page.contains(document_content));
    assert!(!document_page.contains("Discovered documents"));
    assert!(!document_page.contains("document-catalog"));
    assert!(!document_page.contains("document-search"));
    assert!(!document_page.contains("data-document-navigation-control"));
    assert!(!document_page.contains("data-document-navigation-toggle"));
    assert!(!document_page.contains("<nav id=\"document-navigation\""));
}

#[test]
fn document_page_then_omits_rendering_status_and_disable_control() {
    // Arrange
    let expected_content = "<p>Document content</p>";

    // Act
    let document_page = page("README.md", expected_content.to_owned(), None, TEST_TOKEN);

    // Assert
    assert!(document_page.contains(expected_content));
    assert!(!document_page.contains("PlantUML server rendering"));
    assert!(!document_page.contains("rendering-status"));
    assert!(!document_page.contains("data-disable-renderer"));
}

#[test]
fn document_page_then_includes_session_token_and_no_referrer_policy() {
    // Arrange
    let content = "<p>Content</p>";

    // Act
    let rendered = page("Test", content.to_owned(), None, TEST_TOKEN);

    // Assert
    assert!(rendered.contains(r#"<meta name="referrer" content="no-referrer">"#));
    assert!(rendered.contains(r#"<link rel="stylesheet" href="/app.css?token=test-token">"#));
    assert!(rendered.contains(r#"<script src="/app.js?token=test-token"></script>"#));
    assert!(rendered.contains(r#"data-session-token="test-token""#));
}

#[test]
fn inject_capability_then_attaches_token_to_document_and_diagram_urls() {
    // Arrange
    let html = r#"<p><a href="/documents/README.md#install">Install</a></p><img src="/diagrams/0/0" alt="Diagram"><a href="https://example.com">External</a>"#;

    // Act
    let injected = inject_capability(html, TEST_TOKEN);

    // Assert
    assert!(injected.contains(r#"href="/documents/README.md?token=test-token#install""#));
    assert!(injected.contains(r#"src="/diagrams/0/0?token=test-token""#));
    assert!(injected.contains(r#"href="https://example.com""#));
}

#[test]
fn unavailable_document_then_explains_how_to_return() {
    // Arrange
    let expected_message = "requested document is not part of this viewing session";

    // Act
    let page = document_unavailable_page(TEST_TOKEN);

    // Assert
    assert!(page.contains("<title>Lens: Document unavailable</title>"));
    assert!(page.contains(expected_message));
    assert!(page.contains(r#"href="/?token=test-token""#));
}

#[test]
fn link_with_query_then_token_joins_query_and_unclosed_url_is_kept() {
    assert_eq!(
        inject_capability(r#"<a href="/documents/a.md?x=1">"#, "t"),
        r#"<a href="/documents/a.md?x=1&token=t">"#
    );
    assert_eq!(
        inject_capability(r#"<a href="/documents/a.md"#, "t"),
        r#"<a href="/documents/a.md"#
    );
    assert_eq!(inject_capability("", "t"), "");
}

#[test]
fn page_with_revision_then_exposes_escaped_identifier_and_revision() {
    let rendered = page("<T>", String::new(), Some(("a&b.md", 42)), "k");
    assert!(rendered.contains(r#" data-document-id="a&amp;b.md" data-document-revision="42""#));
    assert!(rendered.contains("<title>Lens: &lt;T&gt;</title>"));
}

#[test]
fn content_security_policy_then_restricts_sources_to_self() {
    assert_eq!(
        content_security_policy(),
        "default-src 'self'; base-uri 'none'; img-src 'self'; object-src 'none'; script-src 'self'; style-src 'self'"
    );
}

#[test]
fn known_identifier_then_returns_document_index() {
    // Arrange
    let known_documents = KnownDocuments::new(vec![
        ("README.md".to_owned(), 0),
        ("guides/intro.md".to_owned(), 1),
    ]);

    // Act
    let document_index = known_documents.index("guides/intro.md");

    // Assert
    assert_eq!(document_index, Some(1));
}

#[test]
fn unknown_identifier_then_returns_no_document_index() {
    // Arrange
    let known_documents = KnownDocuments::new(vec![("README.md".to_owned(), 0)]);

    // Act
    let document_index = known_documents.index("../private.md");

    // Assert
    assert_eq!(document_index, None);
}

#[test]
fn repeated_identifier_then_last_index_is_kept() {
    let known_documents = KnownDocuments::new(vec![
        ("b.md".to_owned(), 0),
        ("a.md".to_owned(), 1),
        ("b.md".to_owned(), 2),
    ]);
    assert_eq!(known_documents.index("b.md"), Some(2));
    assert_eq!(known_documents.index("a.md"), Some(1));
}

#[test]
fn supported_browser_platform_then_uses_its_launch_command() {
    // Arrange
    let url = "http://127.0.0.1:4567";

    // Act
    let commands = [
        (
            BrowserPlatform::Linux,
            browser_command(BrowserPlatform::Linux, url),
        ),
        (
            BrowserPlatform::MacOs,
            browser_command(BrowserPlatform::MacOs, url),
        ),
        (
            BrowserPlatform::Windows,
            browser_command(BrowserPlatform::Windows, url),
        ),
    ];

    // Assert
    assert_eq!(
        commands[0].1,
        BrowserCommand {
            program: "xdg-open",
            arguments: vec![url.to_owned()],
        }
    );
    assert_eq!(
        commands[1].1,
        BrowserCommand {
            program: "open",
            arguments: vec![url.to_owned()],
        }
    );
    assert_eq!(
        commands[2].1,
        BrowserCommand {
            program: "cmd",
            arguments: vec![
                "/C".to_owned(),
                "start".to_owned(),
                String::new(),
                url.to_owned()
            ],
        }
    );
}
