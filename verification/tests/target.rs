use lens::target::{
    access_error, access_failure,
    ancestors, check_hidden_below, check_requested_target, contains_hidden_entry, document_kind,
    document_root_for, entry_action, finish_target, is_document_index, is_hidden_target,
    is_markdown_file, is_root_readme, requested_path, select_initial_document, sort_documents,
    target_layout, DocumentKind, EntryAction, EntryKind, InitialSelection, MarkdownDocument,
    TargetError, TargetScope,
};

#[test]
fn current_directory_marker_then_is_not_hidden_target() {
    // Arrange
    let path = ".";

    // Act
    let hidden = is_hidden_target(path);

    // Assert
    assert!(!hidden);
}

#[test]
fn hidden_names_then_are_hidden_targets() {
    assert!(is_hidden_target("/repo/.private.md"));
    assert!(is_hidden_target(".hidden/"));
    assert!(!is_hidden_target(".."));
    assert!(!is_hidden_target("/repo/docs"));
}

#[test]
fn extensions_then_name_document_kinds() {
    assert_eq!(document_kind("/repo/README.MD"), Some(DocumentKind::Markdown));
    assert_eq!(document_kind("guide.markdown"), Some(DocumentKind::Markdown));
    assert_eq!(document_kind("diagram.PUML"), Some(DocumentKind::PlantUml));
    assert_eq!(document_kind("notes.txt"), None);
    assert_eq!(document_kind(".md"), None);
    assert!(is_markdown_file("a/b.md"));
    assert!(is_markdown_file("a/b.md/"));
    assert!(!is_markdown_file("a/b.mdx"));
}

#[test]
fn readme_and_index_identifiers_then_are_recognized_in_any_case() {
    assert!(is_root_readme("readme.md"));
    assert!(is_root_readme("README.markdown"));
    assert!(!is_root_readme("docs/README.md"));
    assert!(is_document_index("DOCS/INDEX.md"));
    assert!(!is_document_index("docs/index.txt"));
}

#[test]
fn requested_targets_then_are_checked_before_resolution() {
    assert!(matches!(
        check_requested_target("/repo/link.md", EntryKind::SymbolicLink),
        Err(TargetError::SymbolicLinkTarget { .. })
    ));
    assert!(matches!(
        check_requested_target("/repo/.notes.md", EntryKind::File),
        Err(TargetError::HiddenTarget { .. })
    ));
    assert!(check_requested_target("/repo/notes.md", EntryKind::File).is_ok());
}

#[test]
fn unsupported_file_then_returns_unsupported_target_error() {
    let layout = target_layout("/repo/notes.txt".to_owned(), EntryKind::File);
    assert!(matches!(layout, Err(TargetError::UnsupportedTarget { .. })));
    let file = target_layout("/repo/docs/guide.md".to_owned(), EntryKind::File).expect("document file");
    assert_eq!(file.target_root, "/repo/docs");
    assert!(matches!(file.selection, InitialSelection::Document(ref path) if path == "/repo/docs/guide.md"));
    let directory = target_layout("/repo".to_owned(), EntryKind::Directory).expect("directory");
    assert_eq!(directory.target_root, "/repo");
}

#[test]
fn repository_scope_then_uses_nearest_repository_root() {
    assert_eq!(
        document_root_for("/repo/docs".to_owned(), Some("/repo".to_owned()), TargetScope::Repository),
        "/repo"
    );
    assert_eq!(
        document_root_for("/repo/docs".to_owned(), Some("/repo".to_owned()), TargetScope::Target),
        "/repo/docs"
    );
    assert_eq!(
        document_root_for("/plain".to_owned(), None, TargetScope::Repository),
        "/plain"
    );
    assert_eq!(TargetScope::default(), TargetScope::Repository);
}

#[test]
fn hidden_entry_below_root_then_returns_hidden_target_error() {
    assert!(contains_hidden_entry("/repo", "/repo/.hidden/docs"));
    assert!(!contains_hidden_entry("/repo/.hidden", "/repo/.hidden/docs"));
    assert!(matches!(
        check_hidden_below("/repo", "/repo/.hidden/docs"),
        Err(TargetError::HiddenTarget { .. })
    ));
    assert!(check_hidden_below("/repo", "/repo/docs").is_ok());
}

#[test]
fn walked_entries_then_skip_links_and_hidden_entries() {
    assert_eq!(entry_action(".git", EntryKind::Directory, "/repo/.git"), EntryAction::Skip);
    assert_eq!(entry_action("docs", EntryKind::Directory, "/repo/docs"), EntryAction::Descend);
    assert_eq!(entry_action("a.md", EntryKind::SymbolicLink, "/repo/a.md"), EntryAction::Skip);
    assert_eq!(
        entry_action("a.md", EntryKind::File, "/repo/a.md"),
        EntryAction::Collect(DocumentKind::Markdown)
    );
    assert_eq!(entry_action("a.txt", EntryKind::File, "/repo/a.txt"), EntryAction::Skip);
}

#[test]
fn ancestors_then_walk_to_the_root() {
    assert_eq!(ancestors("/repo/docs/guides"), vec!["/repo/docs/guides", "/repo/docs", "/repo", "/"]);
    assert_eq!(ancestors("/"), vec!["/"]);
}

#[test]
fn relative_target_then_resolves_from_invocation_directory() {
    assert_eq!(requested_path("/work", Some("docs/guide.md")), "/work/docs/guide.md");
    assert_eq!(requested_path("/work/", Some("docs")), "/work/docs");
    assert_eq!(requested_path("/work", Some("/abs/x.md")), "/abs/x.md");
    assert_eq!(requested_path("/work", None), "/work");
}

fn document(identifier: &str) -> MarkdownDocument {
    MarkdownDocument {
        identifier: identifier.to_owned(),
        canonical_path: format!("/repo/{identifier}"),
        source: format!("# {identifier}"),
        kind: DocumentKind::Markdown,
    }
}

#[test]
fn discovered_documents_then_sort_by_identifier() {
    let sorted = sort_documents(vec![document("guides/usage.md"), document("README.md"), document("docs/index.md")]);
    let identifiers: Vec<&str> = sorted.iter().map(|d| d.identifier.as_str()).collect();
    assert_eq!(identifiers, vec!["README.md", "docs/index.md", "guides/usage.md"]);
}

#[test]
fn directory_with_root_readme_then_selects_readme() {
    let documents = vec![document("README.md"), document("guides/usage.markdown")];
    let selection = InitialSelection::Directory("/repo".to_owned());
    assert_eq!(select_initial_document(&documents, &selection), Some(0));
}

#[test]
fn docs_index_without_root_readme_then_selects_document_index() {
    let documents = vec![document("docs/guide.md"), document("docs/index.md")];
    let selection = InitialSelection::Directory("/repo".to_owned());
    assert_eq!(select_initial_document(&documents, &selection), Some(1));
}

#[test]
fn empty_selected_directory_then_uses_repository_initial_document() {
    let documents = vec![document("a.md"), document("README.md")];
    let selection = InitialSelection::Directory("/repo/empty".to_owned());
    assert_eq!(select_initial_document(&documents, &selection), Some(1));
    let nested = InitialSelection::Directory("/repo/guides".to_owned());
    let more = vec![document("README.md"), document("guides/usage.md")];
    assert_eq!(select_initial_document(&more, &nested), Some(1));
}

#[test]
fn directory_without_supported_documents_then_returns_no_documents_error() {
    let result = finish_target("/repo".to_owned(), Vec::new(), &InitialSelection::Directory("/repo".to_owned()));
    match result {
        Err(TargetError::NoMarkdownDocuments { path }) => assert_eq!(path, "/repo"),
        other => panic!("expected no documents, got {other:?}"),
    }
}

#[test]
fn direct_file_then_starts_at_that_document() {
    let documents = vec![document("b.md"), document("a.md")];
    let target = finish_target(
        "/repo".to_owned(),
        documents,
        &InitialSelection::Document("/repo/b.md".to_owned()),
    )
    .expect("documents should make a target");
    assert_eq!(target.document_root(), "/repo");
    assert_eq!(target.initial_document(), 1);
    let identifiers: Vec<&str> = target.documents().iter().map(|d| d.identifier.as_str()).collect();
    assert_eq!(identifiers, vec!["a.md", "b.md"]);
    let (root, documents, initial) = target.into_parts();
    assert_eq!(root, "/repo");
    assert_eq!(documents[initial].identifier, "b.md");
}

#[test]
fn target_error_messages_name_the_path() {
    assert_eq!(
        TargetError::Missing { path: "missing-document.md".to_owned() }.message(),
        "Target missing-document.md does not exist"
    );
    assert_eq!(
        TargetError::HiddenTarget { path: "/repo/.x".to_owned() }.message(),
        "Target /repo/.x is hidden; choose a visible directory or Markdown file"
    );
}

#[test]
fn missing_target_then_returns_missing_error() {
    // Arrange
    let path = "missing-document.md";
    let source = std::io::Error::from(std::io::ErrorKind::NotFound);

    // Act
    let result = access_error(path, &source);

    // Assert
    assert!(matches!(result, TargetError::Missing { .. }));
}

#[test]
fn unreadable_target_then_keeps_the_system_reason() {
    let source = std::io::Error::new(std::io::ErrorKind::PermissionDenied, "denied here");
    let error = access_error("locked.md", &source);
    assert!(matches!(
        &error,
        TargetError::Unreadable { path, reason } if path == "locked.md" && reason == "denied here"
    ));
    assert_eq!(error.message(), "Target locked.md is not readable: denied here");
    let missing = access_failure("gone.md", lens::service::endpoint::IoFailureKind::NotFound, String::new());
    assert_eq!(missing.message(), "Target gone.md does not exist");
}

#[test]
fn discovered_document_then_takes_identifier_and_kind_from_its_path() {
    let document = MarkdownDocument::discovered("/repo", "/repo/docs/flow.PUML".to_owned(), "@startuml".to_owned())
        .expect("a visible document below the root is discovered");
    assert_eq!(document.identifier, "docs/flow.PUML");
    assert_eq!(document.kind, DocumentKind::PlantUml);
    assert_eq!(document.source, "@startuml");
    assert!(MarkdownDocument::discovered("/repo", "/repo/.hidden/a.md".to_owned(), String::new()).is_none());
    assert!(MarkdownDocument::discovered("/repo", "/other/a.md".to_owned(), String::new()).is_none());
    assert!(MarkdownDocument::discovered("/repo", "/repo/notes.txt".to_owned(), String::new()).is_none());
}

#[test]
fn loaded_target_then_holds_placed_documents_in_ascending_order() {
    let documents = vec![document("z.md"), document("docs/a.md"), document("README.md")];
    let target = finish_target("/repo".to_owned(), documents, &InitialSelection::Directory("/repo".to_owned()))
        .expect("documents should make a target");
    let (root, documents, initial) = target.into_parts();
    assert_eq!(root, "/repo");
    let identifiers: Vec<&str> = documents.iter().map(|d| d.identifier.as_str()).collect();
    assert_eq!(identifiers, vec!["README.md", "docs/a.md", "z.md"]);
    assert_eq!(documents[initial].identifier, "README.md");
    for document in &documents {
        assert_eq!(document.canonical_path, format!("{root}/{}", document.identifier));
    }
}
