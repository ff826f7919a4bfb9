use lens::target::EntryKind::{Directory, File, SymbolicLink};
use lens::source_link::{
    encode_vscode_path, has_uri_scheme, has_valid_percent_encoding, normalize_relative_link,
    vscode_url, SourceLinkResolver,
};

#[test]
fn encoded_relative_link_then_normalizes_without_suffix() {
    // Arrange
    let current_document = "docs/design.md";

    // Act
    let normalized =
        normalize_relative_link(current_document, "../src/source%20file-%E6%B8%AC%E8%A9%A6.rs");

    // Assert
    assert_eq!(normalized.as_deref(), Some("src/source file-測試.rs"));
}

#[test]
fn absolute_or_escaping_links_then_do_not_normalize() {
    assert_eq!(normalize_relative_link("docs/design.md", "/etc/passwd"), None);
    assert_eq!(normalize_relative_link("docs/design.md", "C:/Windows/win.ini"), None);
    assert_eq!(normalize_relative_link("docs/design.md", "..\\src\\lib.rs"), None);
    assert_eq!(normalize_relative_link("docs/design.md", "../../outside.rs"), None);
    assert_eq!(normalize_relative_link("docs/design.md", "../src/bad%ZZ.rs"), None);
    assert_eq!(normalize_relative_link("docs/design.md", ""), None);
    assert_eq!(
        normalize_relative_link("docs/design.md", "./notes/../lib.rs").as_deref(),
        Some("docs/lib.rs")
    );
}

#[test]
fn percent_escapes_and_schemes_then_are_recognized() {
    assert!(has_valid_percent_encoding("a%20b%7e"));
    assert!(!has_valid_percent_encoding("a%2"));
    assert!(!has_valid_percent_encoding("a%%41"));
    assert!(has_uri_scheme("https://example.com"));
    assert!(has_uri_scheme("vscode+x-1.2:path"));
    assert!(!has_uri_scheme("1http://x"));
    assert!(!has_uri_scheme(":x"));
    assert!(!has_uri_scheme("no-scheme"));
}

#[test]
fn windows_path_then_uses_forward_separators_and_preserves_drive_letter() {
    // Arrange
    let path = r"C:\Users\Ada Lovelace\專案\main.rs";

    // Act
    let url = vscode_url(path);

    // Assert
    assert_eq!(url, "vscode://file/C:/Users/Ada%20Lovelace/%E5%B0%88%E6%A1%88/main.rs");
}

#[test]
fn verbatim_paths_then_drop_their_prefix() {
    assert_eq!(vscode_url(r"\\?\C:\x.rs"), "vscode://file/C:/x.rs");
    assert_eq!(vscode_url(r"\\?\UNC\server\share\x.rs"), "vscode://file//server/share/x.rs");
    assert_eq!(vscode_url("/home/ada/src/lib.rs"), "vscode://file/home/ada/src/lib.rs");
    assert_eq!(encode_vscode_path("a b#c"), "a%20b%23c");
}

#[test]
fn source_links_then_walk_visible_components_inside_the_root() {
    let resolver = SourceLinkResolver::new("/repo".to_owned());
    assert_eq!(
        resolver.link_components("/repo/docs/design.md", "../src/lib.rs"),
        Some(vec!["src".to_owned(), "lib.rs".to_owned()])
    );
    assert_eq!(resolver.link_components("/repo/docs/design.md", "../.hidden/lib.rs"), None);
    assert_eq!(resolver.link_components("/elsewhere/design.md", "lib.rs"), None);
    assert_eq!(
        resolver.link_for("/repo/src/lib.rs").as_deref(),
        Some("vscode://file/repo/src/lib.rs")
    );
    assert_eq!(resolver.link_for("/other/lib.rs"), None);
}

#[test]
fn encoded_vscode_path_then_holds_only_link_characters() {
    let encoded = encode_vscode_path("dir/\"quoted\" <file> é.rs");
    assert_eq!(encoded, "dir/%22quoted%22%20%3Cfile%3E%20%C3%A9.rs");
    assert!(encoded.chars().all(|c| c.is_ascii() && c != ' ' && c != '"' && c != '<' && c != '>'));
}

#[test]
fn source_link_decision_then_needs_directories_then_a_readable_file_inside_root() {
    let resolver = SourceLinkResolver::new("/repo".to_owned());
    let current = "/repo/docs/design.md";
    assert_eq!(
        resolver.source_link(current, "../src/lib.rs", &[Directory, File], true, Some("/repo/src/lib.rs")).as_deref(),
        Some("vscode://file/repo/src/lib.rs")
    );
    assert_eq!(resolver.source_link(current, "../src/lib.rs", &[SymbolicLink, File], true, Some("/repo/src/lib.rs")), None);
    assert_eq!(resolver.source_link(current, "../src/lib.rs", &[Directory, Directory], true, Some("/repo/src")), None);
    assert_eq!(resolver.source_link(current, "../src/lib.rs", &[Directory], false, None), None);
    assert_eq!(resolver.source_link(current, "../src/lib.rs", &[Directory, File], false, Some("/repo/src/lib.rs")), None);
    assert_eq!(resolver.source_link(current, "../src/lib.rs", &[Directory, File], true, Some("/elsewhere/lib.rs")), None);
    assert_eq!(resolver.source_link(current, "../.git/config", &[Directory, File], true, Some("/repo/.git/config")), None);
    assert_eq!(resolver.source_link(current, "/etc/passwd", &[Directory, File], true, Some("/etc/passwd")), None);
}
