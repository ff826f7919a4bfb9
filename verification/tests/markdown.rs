use lens::markdown::{escape_html, link_destinations, render, render_standalone_plantuml, resolve_document_link};
use lens::plantuml::{DiagramRenderer, RendererMode};

fn public_renderer() -> DiagramRenderer {
    DiagramRenderer::from_mode(RendererMode::Public)
}

#[test]
fn plantuml_block_then_adds_document_scoped_diagram_endpoint() {
    // Arrange
    let markdown = "```plantuml\n@startuml\nAlice -> Bob: hello\n@enduml\n```";

    // Act
    let document = render(markdown, 3, "guides/intro.md", &[], &[], &public_renderer());

    // Assert
    assert_eq!(document.diagrams.len(), 1);
    assert!(document.html.contains("src=\"/diagrams/3/0\""));
    assert_eq!(
        document.diagrams[0].source,
        "@startuml\nAlice -> Bob: hello\n@enduml\n"
    );
}

#[test]
fn disabled_renderer_then_keeps_plantuml_source_without_an_image_request() {
    // Arrange
    let markdown = "```plantuml\n@startuml\nAlice -> Bob: private\n@enduml\n```";
    let renderer = DiagramRenderer::from_mode(RendererMode::Disabled);

    // Act
    let document = render(markdown, 0, "document.md", &[], &[], &renderer);

    // Assert
    assert!(!document.html.contains("<img"));
    assert!(document
        .html
        .contains("PlantUML rendering is disabled for this viewing session."));
    assert!(document.html.contains("Alice -&gt; Bob: private"));
}

#[test]
fn standalone_plantuml_source_then_renders_a_document_scoped_diagram() {
    // Arrange
    let source = "@startuml\nAlice -> Bob: standalone\n@enduml";

    // Act
    let document = render_standalone_plantuml(2, source, &public_renderer());

    // Assert
    assert_eq!(document.diagrams.len(), 1);
    assert_eq!(document.diagrams[0].source, source);
    assert!(document.html.contains("Standalone PlantUML file."));
    assert!(document.html.contains("src=\"/diagrams/2/0\""));
}

#[test]
fn known_relative_markdown_link_then_targets_document_route() {
    // Arrange
    let markdown = "[Read the overview](../README.md#install)";
    let known_documents = vec!["README.md".to_owned(), "guides/intro.md".to_owned()];

    // Act
    let document = render(
        markdown,
        0,
        "guides/intro.md",
        &known_documents,
        &[],
        &public_renderer(),
    );

    // Assert
    assert!(document
        .html
        .contains("href=\"/documents/README.md#install\""));
}

#[test]
fn unknown_or_external_link_then_preserves_original_destination() {
    // Arrange
    let markdown = "[Unknown](../../secret.md) [External](https://example.com/guide.md)";
    let known_documents = vec!["guides/intro.md".to_owned()];

    // Act
    let document = render(
        markdown,
        0,
        "guides/intro.md",
        &known_documents,
        &[],
        &public_renderer(),
    );

    // Assert
    assert!(document.html.contains("href=\"../../secret.md\""));
    assert!(document
        .html
        .contains("href=\"https://example.com/guide.md\""));
}

#[test]
fn other_fenced_block_then_remains_code_block() {
    // Arrange
    let markdown = "```rust\nlet answer = 42;\n```";

    // Act
    let document = render(markdown, 0, "document.md", &[], &[], &public_renderer());

    // Assert
    assert!(document.diagrams.is_empty());
    assert!(document.html.contains("language-rust"));
    assert!(document.html.contains("let answer = 42;"));
}

#[test]
fn raw_html_then_is_escaped() {
    // Arrange
    let markdown = "<script>alert('unsafe')</script>";

    // Act
    let document = render(markdown, 0, "document.md", &[], &[], &public_renderer());

    // Assert
    assert!(!document.html.contains("<script>"));
    assert!(document.html.contains("&lt;script&gt;"));
}

#[test]
fn valid_frontmatter_then_renders_nested_metadata_before_markdown_body() {
    // Arrange
    let markdown = "---\ntitle: Lens guide\nauthor: Ada\ntags:\n  - rust\n  - docs\npublication:\n  audience: maintainers\n---\n# Guide\n\nBody text.";

    // Act
    let document = render(markdown, 0, "guide.md", &[], &[], &public_renderer());

    // Assert
    assert!(document.html.contains("class=\"document-metadata\""));
    assert!(document
        .html
        .contains("<caption>Document metadata</caption>"));
    assert!(document
        .html
        .contains("<th scope=\"row\">title</th><td>Lens guide</td>"));
    assert!(document.html.contains("<li>rust</li>"));
    assert!(document.html.contains(">audience</dt><dd>maintainers</dd>"));
    assert!(document.html.contains("<h1>Guide</h1>"));
    assert!(!document.html.contains("<hr"));
}

#[test]
fn alternate_frontmatter_delimiter_then_excludes_metadata_from_markdown_body() {
    // Arrange
    let markdown = "---\ntitle: Alternate delimiter\n...\n# Guide";

    // Act
    let document = render(markdown, 0, "guide.md", &[], &[], &public_renderer());

    // Assert
    assert!(document
        .html
        .contains("<th scope=\"row\">title</th><td colspan=\"3\">Alternate delimiter</td>"));
    assert!(document.html.contains("<h1>Guide</h1>"));
    assert!(!document.html.contains("<p>title: Alternate delimiter</p>"));
}

#[test]
fn malformed_frontmatter_then_shows_actionable_error_and_renders_body() {
    // Arrange
    let markdown = "---\ntitle: [missing bracket\n---\n# Guide";

    // Act
    let document = render(markdown, 0, "guide.md", &[], &[], &public_renderer());

    // Assert
    assert!(document.html.contains("class=\"frontmatter-error\""));
    assert!(document.html.contains("Could not parse YAML frontmatter."));
    assert!(document
        .html
        .contains("Fix the YAML between the opening and closing delimiters."));
    assert!(document.html.contains("<h1>Guide</h1>"));
}

#[test]
fn unknown_nested_frontmatter_value_then_escapes_its_html() {
    // Arrange
    let markdown = "---\ncustom:\n  note: <unsafe>\n---\n# Guide";

    // Act
    let document = render(markdown, 0, "guide.md", &[], &[], &public_renderer());

    // Assert
    assert!(document
        .html
        .contains("<th scope=\"row\">custom</th><td colspan=\"3\"><dl>"));
    assert!(document.html.contains("&lt;unsafe&gt;"));
    assert!(!document.html.contains("<unsafe>"));
}

#[test]
fn unclosed_frontmatter_then_explains_delimiter_and_preserves_document_source() {
    // Arrange
    let markdown = "---\ntitle: Unclosed metadata\n# Guide";

    // Act
    let document = render(markdown, 0, "guide.md", &[], &[], &public_renderer());

    // Assert
    assert!(document
        .html
        .contains("A closing `---` or `...` delimiter is required."));
    assert!(document.html.contains("title: Unclosed metadata"));
    assert!(document.html.contains("<h1>Guide</h1>"));
}

#[test]
fn plantuml_source_with_html_then_escapes_source_in_fallback() {
    // Arrange
    let markdown = "```plantuml\nAlice -> Bob: <unsafe>\n```";

    // Act
    let document = render(markdown, 0, "document.md", &[], &[], &public_renderer());

    // Assert
    assert!(document.html.contains("&lt;unsafe&gt;"));
}

#[test]
fn markup_characters_then_escape_as_character_references() {
    assert_eq!(escape_html("<a href=\"x\">Tom & 'Jerry'</a>"), "&lt;a href=&quot;x&quot;&gt;Tom &amp; &#x27;Jerry&#x27;&lt;/a&gt;");
    assert_eq!(escape_html("plain"), "plain");
    assert_eq!(escape_html(""), "");
}

#[test]
fn relative_links_then_resolve_only_known_markdown_documents() {
    let known = vec!["README.md".to_owned(), "docs/guide.md".to_owned()];
    assert_eq!(resolve_document_link("guide.md?x=1", "docs/index.md", &known), "/documents/docs/guide.md?x=1");
    assert_eq!(resolve_document_link("./../README.MD", "docs/index.md", &known), "./../README.MD");
    assert_eq!(resolve_document_link("../README.md", "docs/index.md", &known), "/documents/README.md");
    assert_eq!(resolve_document_link("../../README.md", "docs/index.md", &known), "../../README.md");
    assert_eq!(resolve_document_link("/README.md", "docs/index.md", &known), "/README.md");
    assert_eq!(resolve_document_link("#top", "docs/index.md", &known), "#top");
    assert_eq!(resolve_document_link("guide.txt", "docs/index.md", &known), "guide.txt");
}

#[test]
fn relative_links_to_known_plantuml_documents_then_resolve() {
    let known = vec!["diagrams/flow.puml".to_owned(), "docs/index.md".to_owned()];
    assert_eq!(
        resolve_document_link("../diagrams/flow.PUML#top", "docs/index.md", &known),
        "../diagrams/flow.PUML#top"
    );
    assert_eq!(
        resolve_document_link("../diagrams/flow.puml#top", "docs/index.md", &known),
        "/documents/diagrams/flow.puml#top"
    );
    assert_eq!(resolve_document_link("../diagrams/other.puml", "docs/index.md", &known), "../diagrams/other.puml");
}

#[test]
fn empty_frontmatter_then_shows_no_fields_notice() {
    let document = render("---\n---\n# Title", 0, "a.md", &[], &[], &public_renderer());
    assert!(document.html.contains("No metadata fields were supplied."));
    assert!(document.html.contains("<h1>Title</h1>"));
}

#[test]
fn scalar_frontmatter_then_explains_mapping_requirement() {
    let document = render("---\njust text\n---\nBody", 0, "a.md", &[], &[], &public_renderer());
    assert!(document.html.contains("YAML frontmatter must be a mapping of metadata fields."));
}

#[test]
fn two_plantuml_blocks_then_number_diagrams_in_order() {
    let markdown = "```plantuml\nA\n```\n\ntext\n\n``` PlantUML \nB\n```";
    let document = render(markdown, 7, "a.md", &[], &[], &public_renderer());
    assert_eq!(document.diagrams.len(), 2);
    assert_eq!(document.diagrams[0].source, "A\n");
    assert_eq!(document.diagrams[1].source, "B\n");
    assert!(document.html.contains("src=\"/diagrams/7/1\""));
}

#[test]
fn link_to_known_plantuml_document_then_renders_viewer_route() {
    let known_documents = vec!["diagrams/flow.puml".to_owned()];
    let document = render(
        "[Flow](../diagrams/flow.puml)",
        0,
        "docs/guide.md",
        &known_documents,
        &[],
        &public_renderer(),
    );
    assert_eq!(document.html, "<p><a href=\"/documents/diagrams/flow.puml\">Flow</a></p>\n");
}

#[test]
fn source_link_given_then_renders_vscode_link_with_note() {
    let links = vec![(
        "../src/lib.rs".to_owned(),
        "vscode://file/home/ada/project/src/lib.rs".to_owned(),
    )];
    let document = render(
        "See [Source](../src/lib.rs) and [Other](../src/other.rs).",
        0,
        "docs/guide.md",
        &[],
        &links,
        &public_renderer(),
    );
    assert_eq!(
        document.html,
        "<p>See <a href=\"vscode://file/home/ada/project/src/lib.rs\">Source (opens in VS Code)</a> and <a href=\"../src/other.rs\">Other</a>.</p>\n"
    );
}

#[test]
fn rendered_body_then_follows_frontmatter_and_escapes_text() {
    let document = render("---\ntitle: A\n---\nTom & <b>Jerry</b>", 0, "a.md", &[], &[], &public_renderer());
    let body = "<p>Tom &amp; &lt;b&gt;Jerry&lt;/b&gt;</p>\n";
    assert!(document.html.ends_with(body));
    assert!(document.html.starts_with("<section"));
}

#[test]
fn link_destinations_then_lists_body_links_in_order() {
    let destinations = link_destinations("---\nx: 1\n---\n[a](one.md) text [b](../two.rs?x#y)\n\n![i](pic.png)");
    assert_eq!(destinations, vec!["one.md".to_owned(), "../two.rs?x#y".to_owned()]);
}
