use vstd::prelude::*;
use vstd::multiset::Multiset;

use crate::identifiers::{lemma_text_less_irreflexive, lemma_text_less_total, lemma_text_less_transitive, text_less};
use crate::paths::{
    extension, extension_range, file_name, file_name_of, is_hidden_name, parent_of, parent_path,
    relative_path, relative_to, views,
};
use crate::service::endpoint::{io_error_text, io_failure_kind, IoFailureKind};
use crate::text::{
    chars_of, equal_ignoring_ascii_case, range_equals_ignoring_ascii_case, split_chars, split_on,
};

verus! {

/// The kind of a document that a target holds.
#[derive(Clone, Copy, Debug, PartialEq, Eq, Structural)]
pub enum DocumentKind {
    Markdown,
    PlantUml,
}

/// Which documents a target brings in: those of the repository around it, or only those below
/// it.
#[derive(Clone, Copy, Debug, PartialEq, Eq, Structural)]
pub enum TargetScope {
    Repository,
    Target,
}

impl Default for TargetScope {
    fn default() -> (scope: Self)
        ensures
            scope == TargetScope::Repository,
    {
        TargetScope::Repository
    }
}

/// What a path in the file system is, as its metadata (without following links) shows.
#[derive(Clone, Copy, Debug, PartialEq, Eq, Structural)]
pub enum EntryKind {
    Directory,
    File,
    SymbolicLink,
    Other,
}

/// Whether a file extension names a Markdown document: `md` or `markdown`, in any ASCII case.
pub open spec fn is_markdown_extension(extension: Seq<char>) -> bool {
    equal_ignoring_ascii_case(extension, seq!['m', 'd']) || equal_ignoring_ascii_case(
        extension,
        seq!['m', 'a', 'r', 'k', 'd', 'o', 'w', 'n'],
    )
}

/// Whether a file extension names a PlantUML document: `puml`, in any ASCII case.
pub open spec fn is_plantuml_extension(extension: Seq<char>) -> bool {
    equal_ignoring_ascii_case(extension, seq!['p', 'u', 'm', 'l'])
}

/// The kind of document that a path names by its extension.
pub open spec fn kind_of(path: Seq<char>) -> Option<DocumentKind> {
    match extension(path) {
        Some(e) => if is_markdown_extension(e) {
            Some(DocumentKind::Markdown)
        } else if is_plantuml_extension(e) {
            Some(DocumentKind::PlantUml)
        } else {
            None
        },
        None => None,
    }
}

/// Whether a requested path is hidden: its file name starts with `.` and is neither `.` nor
/// `..`.
pub open spec fn hidden_target(path: Seq<char>) -> bool {
    match file_name(path) {
        Some(name) => name != seq!['.'] && name != seq!['.', '.'] && is_hidden_name(name),
        None => false,
    }
}

/// Whether an identifier names the README at the root: `README.md` or `README.markdown`, in
/// any ASCII case.
pub open spec fn root_readme(identifier: Seq<char>) -> bool {
    equal_ignoring_ascii_case(identifier, seq!['R', 'E', 'A', 'D', 'M', 'E', '.', 'm', 'd'])
        || equal_ignoring_ascii_case(
        identifier,
        seq!['R', 'E', 'A', 'D', 'M', 'E', '.', 'm', 'a', 'r', 'k', 'd', 'o', 'w', 'n'],
    )
}

/// Whether an identifier names the documentation index: `docs/index.md` or
/// `docs/index.markdown`, in any ASCII case.
pub open spec fn document_index(identifier: Seq<char>) -> bool {
    equal_ignoring_ascii_case(
        identifier,
        seq!['d', 'o', 'c', 's', '/', 'i', 'n', 'd', 'e', 'x', '.', 'm', 'd'],
    ) || equal_ignoring_ascii_case(
        identifier,
        seq!['d', 'o', 'c', 's', '/', 'i', 'n', 'd', 'e', 'x', '.', 'm', 'a', 'r', 'k', 'd', 'o', 'w', 'n'],
    )
}

/// Whether a requested path is hidden.
pub fn is_hidden_target(path: &str) -> (hidden: bool)
    ensures
        hidden == hidden_target(path@),
{
    match file_name_of(path) {
        Some(name) => {
            let single = name.len() == 1 && name[0] == '.';
            let double = name.len() == 2 && name[0] == '.' && name[1] == '.';
            proof {
                if name@ == seq!['.'] {
                    assert(name@.len() == 1 && name@[0] == '.');
                }
                if name@ == seq!['.', '.'] {
                    assert(name@.len() == 2 && name@[1] == '.');
                }
                if single {
                    assert(name@ =~= seq!['.']);
                }
                if double {
                    assert(name@ =~= seq!['.', '.']);
                }
            }
            !single && !double && name.len() > 0 && name[0] == '.'
        },
        None => false,
    }
}

/// The extension of a path's file name.
fn extension_of(path: &str) -> (found: Option<Vec<char>>)
    ensures
        found matches Some(e) ==> extension(path@) == Some(e@),
        found is None ==> extension(path@) is None,
{
    match file_name_of(path) {
        Some(name) => match extension_range(name.as_slice()) {
            Some(from) => {
                let mut e: Vec<char> = Vec::new();
                let mut index = from;
                while index < name.len()
                    invariant
                        from <= index <= name@.len(),
                        e@ == name@.subrange(from as int, index as int),
                    decreases name@.len() - index,
                {
                    e.push(name[index]);
                    index = index + 1;
                }
                assert(e@ =~= name@.skip(from as int));
                Some(e)
            },
            None => None,
        },
        None => None,
    }
}

/// Whether a path names a Markdown file by its extension.
pub fn is_markdown_file(path: &str) -> (markdown: bool)
    ensures
        markdown == (extension(path@) matches Some(e) && is_markdown_extension(e)),
{
    match extension_of(path) {
        Some(e) => {
            let md = ['m', 'd'];
            let markdown = ['m', 'a', 'r', 'k', 'd', 'o', 'w', 'n'];
            assert(md@ =~= seq!['m', 'd']);
            assert(markdown@ =~= seq!['m', 'a', 'r', 'k', 'd', 'o', 'w', 'n']);
            assert(e@.subrange(0, e@.len() as int) =~= e@);
            range_equals_ignoring_ascii_case(e.as_slice(), 0, e.len(), &md)
                || range_equals_ignoring_ascii_case(e.as_slice(), 0, e.len(), &markdown)
        },
        None => false,
    }
}

/// The kind of document that a path names, if it names one.
pub fn document_kind(path: &str) -> (kind: Option<DocumentKind>)
    ensures
        kind == kind_of(path@),
{
    if is_markdown_file(path) {
        return Some(DocumentKind::Markdown);
    }
    match extension_of(path) {
        Some(e) => {
            let puml = ['p', 'u', 'm', 'l'];
            assert(puml@ =~= seq!['p', 'u', 'm', 'l']);
            assert(e@.subrange(0, e@.len() as int) =~= e@);
            if range_equals_ignoring_ascii_case(e.as_slice(), 0, e.len(), &puml) {
                Some(DocumentKind::PlantUml)
            } else {
                None
            }
        },
        None => None,
    }
}

/// Whether a text equals an expected text ignoring ASCII case.
fn text_equals_ignoring_ascii_case(text: &str, expected: &[char]) -> (equal: bool)
    ensures
        equal == equal_ignoring_ascii_case(text@, expected@),
{
    let chars = chars_of(text);
    assert(chars@.subrange(0, chars@.len() as int) =~= chars@);
    range_equals_ignoring_ascii_case(chars.as_slice(), 0, chars.len(), expected)
}

/// Whether an identifier names the README at the root.
pub fn is_root_readme(identifier: &str) -> (readme: bool)
    ensures
        readme == root_readme(identifier@),
{
    let md = ['R', 'E', 'A', 'D', 'M', 'E', '.', 'm', 'd'];
    let markdown = ['R', 'E', 'A', 'D', 'M', 'E', '.', 'm', 'a', 'r', 'k', 'd', 'o', 'w', 'n'];
    assert(md@ =~= seq!['R', 'E', 'A', 'D', 'M', 'E', '.', 'm', 'd']);
    assert(markdown@ =~= seq!['R', 'E', 'A', 'D', 'M', 'E', '.', 'm', 'a', 'r', 'k', 'd', 'o', 'w', 'n']);
    text_equals_ignoring_ascii_case(identifier, &md) || text_equals_ignoring_ascii_case(
        identifier,
        &markdown,
    )
}

/// Whether an identifier names the documentation index.
pub fn is_document_index(identifier: &str) -> (index: bool)
    ensures
        index == document_index(identifier@),
{
    let md = ['d', 'o', 'c', 's', '/', 'i', 'n', 'd', 'e', 'x', '.', 'm', 'd'];
    let markdown = [
        'd', 'o', 'c', 's', '/', 'i', 'n', 'd', 'e', 'x', '.', 'm', 'a', 'r', 'k', 'd', 'o', 'w', 'n',
    ];
    assert(md@ =~= seq!['d', 'o', 'c', 's', '/', 'i', 'n', 'd', 'e', 'x', '.', 'm', 'd']);
    assert(markdown@ =~= seq![
        'd', 'o', 'c', 's', '/', 'i', 'n', 'd', 'e', 'x', '.', 'm', 'a', 'r', 'k', 'd', 'o', 'w', 'n',
    ]);
    text_equals_ignoring_ascii_case(identifier, &md) || text_equals_ignoring_ascii_case(
        identifier,
        &markdown,
    )
}

/// Why a target cannot be loaded; each error names the path it is about.
#[derive(Debug)]
pub enum TargetError {
    Missing { path: String },
    Unreadable { path: String, reason: String },
    UnsupportedTarget { path: String },
    NoMarkdownDocuments { path: String },
    SymbolicLinkTarget { path: String },
    HiddenTarget { path: String },
}

/// The error for a target path that could not be read: `Missing` where the system reports
/// that nothing is found there, else `Unreadable` with the system's reason.
pub fn access_failure(path: &str, kind: IoFailureKind, reason: String) -> (error: TargetError)
    ensures
        kind == IoFailureKind::NotFound ==> (error matches TargetError::Missing { path: p }
            && p@ == path@),
        kind != IoFailureKind::NotFound ==> (error matches TargetError::Unreadable {
            path: p,
            reason: r,
        } && p@ == path@ && r@ == reason@),
{
    if kind == IoFailureKind::NotFound {
        TargetError::Missing { path: path.to_owned() }
    } else {
        TargetError::Unreadable { path: path.to_owned(), reason }
    }
}

/// The error for a target path whose metadata or canonical form could not be read, from the
/// system's error: `Missing` or `Unreadable`, naming the path, as `access_failure` decides on
/// the error's kind and text.
pub fn access_error(path: &str, source: &std::io::Error) -> (error: TargetError)
    ensures
        error matches TargetError::Missing { path: p } ==> p@ == path@,
        error matches TargetError::Unreadable { path: p, .. } ==> p@ == path@,
        error is Missing || error is Unreadable,
{
    let kind = io_failure_kind(source);
    let reason = io_error_text(source);
    access_failure(path, kind, reason)
}

/// The sentence that describes a target error.
pub open spec fn error_text(error: TargetError) -> Seq<char> {
    match error {
        TargetError::Missing { path } => "Target "@ + path@ + " does not exist"@,
        TargetError::Unreadable { path, reason } => "Target "@ + path@ + " is not readable: "@
            + reason@,
        TargetError::UnsupportedTarget { path } => "Target "@ + path@
            + " is not a directory or supported document; expected .md, .markdown, or .puml"@,
        TargetError::NoMarkdownDocuments { path } => "Target "@ + path@
            + " contains no discoverable Markdown or PlantUML documents"@,
        TargetError::SymbolicLinkTarget { path } => "Target "@ + path@
            + " is a symbolic link; choose a directory or Markdown file directly"@,
        TargetError::HiddenTarget { path } => "Target "@ + path@
            + " is hidden; choose a visible directory or Markdown file"@,
    }
}

impl TargetError {
    /// The sentence that describes this error.
    pub fn message(&self) -> (text: String)
        ensures
            text@ == error_text(*self),
    {
        let mut text = String::new();
        text.append("Target ");
        match self {
            TargetError::Missing { path } => {
                text.append(path.as_str());
                text.append(" does not exist");
            },
            TargetError::Unreadable { path, reason } => {
                text.append(path.as_str());
                text.append(" is not readable: ");
                text.append(reason.as_str());
            },
            TargetError::UnsupportedTarget { path } => {
                text.append(path.as_str());
                text.append(
                    " is not a directory or supported document; expected .md, .markdown, or .puml",
                );
            },
            TargetError::NoMarkdownDocuments { path } => {
                text.append(path.as_str());
                text.append(" contains no discoverable Markdown or PlantUML documents");
            },
            TargetError::SymbolicLinkTarget { path } => {
                text.append(path.as_str());
                text.append(" is a symbolic link; choose a directory or Markdown file directly");
            },
            TargetError::HiddenTarget { path } => {
                text.append(path.as_str());
                text.append(" is hidden; choose a visible directory or Markdown file");
            },
        }
        text
    }
}

/// What to do with an entry met while walking a document root.
#[derive(Clone, Copy, Debug, PartialEq, Eq, Structural)]
pub enum EntryAction {
    Skip,
    Descend,
    Collect(DocumentKind),
}

/// What walking a document root does with an entry: symbolic links and hidden entries are
/// skipped, directories are walked, and files that name a document are collected.
pub open spec fn entry_action_for(name: Seq<char>, kind: EntryKind, path: Seq<char>) -> EntryAction {
    if kind == EntryKind::SymbolicLink || is_hidden_name(name) {
        EntryAction::Skip
    } else if kind == EntryKind::Directory {
        EntryAction::Descend
    } else if kind == EntryKind::File && kind_of(path) is Some {
        EntryAction::Collect(kind_of(path)->0)
    } else {
        EntryAction::Skip
    }
}

/// What walking a document root does with an entry of a given name, kind and path.
pub fn entry_action(name: &str, kind: EntryKind, path: &str) -> (action: EntryAction)
    ensures
        action == entry_action_for(name@, kind, path@),
{
    let chars = chars_of(name);
    if kind == EntryKind::SymbolicLink || (chars.len() > 0 && chars[0] == '.') {
        return EntryAction::Skip;
    }
    if kind == EntryKind::Directory {
        return EntryAction::Descend;
    }
    if kind == EntryKind::File {
        if let Some(document) = document_kind(path) {
            return EntryAction::Collect(document);
        }
    }
    EntryAction::Skip
}

/// Whether a normalized absolute path is a root or lies below it, as `Path::starts_with`
/// decides by components.
pub fn is_within(root: &str, path: &str) -> (within: bool)
    ensures
        within == (relative_to(root@, path@) is Some),
{
    relative_path(root, path).is_some()
}

/// The identifier of a document: its path below the document root, with `/` between
/// components.
pub fn document_identifier(root: &str, path: &str) -> (identifier: String)
    requires
        relative_to(root@, path@) is Some,
    ensures
        relative_to(root@, path@) == Some(identifier@),
{
    match relative_path(root, path) {
        Some(identifier) => identifier,
        None => String::new(),
    }
}

/// Whether a component of a path is a hidden name: it starts with `.` and is neither `.` nor
/// `..`.
pub open spec fn hidden_component(piece: Seq<char>) -> bool {
    piece != seq!['.'] && piece != seq!['.', '.'] && is_hidden_name(piece)
}

/// Whether a relative path has a hidden component.
pub open spec fn has_hidden_component(relative: Seq<char>) -> bool {
    exists|i: int|
        0 <= i < split_on(relative, '/').len() && #[trigger] hidden_component(
            split_on(relative, '/')[i],
        )
}

/// Whether the part of a path below a root has a hidden component.
pub open spec fn has_hidden_entry(root: Seq<char>, path: Seq<char>) -> bool {
    match relative_to(root, path) {
        Some(relative) => has_hidden_component(relative),
        None => false,
    }
}

/// Whether a component is a hidden name.
fn is_hidden_component(piece: &Vec<char>) -> (hidden: bool)
    ensures
        hidden == hidden_component(piece@),
{
    let single = piece.len() == 1 && piece[0] == '.';
    let double = piece.len() == 2 && piece[0] == '.' && piece[1] == '.';
    proof {
        if piece@ == seq!['.'] {
            assert(piece@.len() == 1 && piece@[0] == '.');
        }
        if piece@ == seq!['.', '.'] {
            assert(piece@.len() == 2 && piece@[1] == '.');
        }
        if single {
            assert(piece@ =~= seq!['.']);
        }
        if double {
            assert(piece@ =~= seq!['.', '.']);
        }
    }
    !single && !double && piece.len() > 0 && piece[0] == '.'
}

/// Whether the part of a path below a root has a hidden component.
pub fn contains_hidden_entry(root: &str, path: &str) -> (hidden: bool)
    ensures
        hidden == has_hidden_entry(root@, path@),
{
    match relative_path(root, path) {
        Some(relative) => {
            let chars = chars_of(relative.as_str());
            let pieces = split_chars(chars.as_slice(), '/');
            let ghost all = split_on(relative@, '/');
            let mut index: usize = 0;
            while index < pieces.len()
                invariant
                    index <= pieces@.len(),
                    all == split_on(relative@, '/'),
                    relative_to(root@, path@) == Some(relative@),
                    pieces@.len() == all.len(),
                    forall|i: int| 0 <= i < pieces@.len() ==> #[trigger] pieces@[i]@ == all[i],
                    forall|i: int| 0 <= i < index ==> !hidden_component(#[trigger] all[i]),
                decreases pieces@.len() - index,
            {
                if is_hidden_component(&pieces[index]) {
                    assert(relative_to(root@, path@) == Some(relative@));
                    assert(hidden_component(split_on(relative@, '/')[index as int]));
                    return true;
                }
                index = index + 1;
            }
            false
        },
        None => false,
    }
}

/// Checks a requested path before it is resolved: a symbolic link or a hidden path is refused.
pub fn check_requested_target(requested: &str, kind: EntryKind) -> (checked: Result<(), TargetError>)
    ensures
        kind == EntryKind::SymbolicLink ==> (checked matches Err(
            TargetError::SymbolicLinkTarget { path },
        ) && path@ == requested@),
        kind != EntryKind::SymbolicLink && hidden_target(requested@) ==> (checked matches Err(
            TargetError::HiddenTarget { path },
        ) && path@ == requested@),
        checked is Ok <==> kind != EntryKind::SymbolicLink && !hidden_target(requested@),
{
    if kind == EntryKind::SymbolicLink {
        return Err(TargetError::SymbolicLinkTarget { path: requested.to_owned() });
    }
    if is_hidden_target(requested) {
        return Err(TargetError::HiddenTarget { path: requested.to_owned() });
    }
    Ok(())
}

/// The document that a target starts at: a given document, or one chosen in a directory.
#[derive(Debug)]
pub enum InitialSelection {
    Document(String),
    Directory(String),
}

/// The directory a target is read from, and where its first document is chosen.
#[derive(Debug)]
pub struct TargetLayout {
    pub target_root: String,
    pub selection: InitialSelection,
}

/// Whether a text is a normalized absolute path: it starts with `/`.
pub open spec fn is_absolute(path: Seq<char>) -> bool {
    path.len() > 0 && path[0] == '/'
}

proof fn lemma_absolute_has_slash(path: Seq<char>)
    requires
        is_absolute(path),
    ensures
        crate::paths::last_slash(path) is Some,
    decreases path.len(),
{
    if path.last() != '/' {
        assert(path.len() > 1);
        lemma_absolute_has_slash(path.drop_last());
    }
}

proof fn lemma_parent_shorter(path: Seq<char>)
    ensures
        parent_of(path) matches Some(parent) ==> parent.len() < path.len(),
{
    crate::paths::lemma_last_slash(path);
    if let Some(slash) = crate::paths::last_slash(path) {
        if slash == 0 && path != seq!['/'] {
            assert(path.len() >= 2) by {
                if path.len() == 1 {
                    assert(path =~= seq!['/']);
                }
            }
        }
    }
}

/// The layout of a target from its canonical path and the kind of the requested path: a
/// directory is its own root; a document file is read from its parent directory; anything else
/// is refused. Paths here are `/`-separated absolute paths, as on Linux; a path in another form
/// (a Windows drive path) is not taken.
pub fn target_layout(canonical: String, kind: EntryKind) -> (layout: Result<TargetLayout, TargetError>)
    requires
        is_absolute(canonical@),
    ensures
        kind == EntryKind::Directory ==> (layout matches Ok(l) && l.target_root@ == canonical@
            && (l.selection matches InitialSelection::Directory(d) && d@ == canonical@)),
        kind == EntryKind::File && kind_of(canonical@) is Some ==> (layout matches Ok(l)
            && parent_of(canonical@) == Some(l.target_root@) && (l.selection matches
            InitialSelection::Document(d) && d@ == canonical@)),
        kind != EntryKind::Directory && !(kind == EntryKind::File && kind_of(canonical@) is Some)
            ==> (layout matches Err(TargetError::UnsupportedTarget { path }) && path@
            == canonical@),
{
    if kind == EntryKind::Directory {
        let root = canonical.clone();
        return Ok(TargetLayout { target_root: root, selection: InitialSelection::Directory(canonical) });
    }
    if kind == EntryKind::File {
        if document_kind(canonical.as_str()).is_some() {
            proof {
                if canonical@ == seq!['/'] {
                    reveal_with_fuel(split_on, 2);
                    reveal_with_fuel(crate::paths::last_normal, 3);
                    assert(canonical@.drop_last() =~= Seq::<char>::empty());
                    let pieces = split_on(canonical@, '/');
                    assert(pieces =~= seq![Seq::<char>::empty(), Seq::<char>::empty()]);
                    assert(pieces.drop_last() =~= seq![Seq::<char>::empty()]);
                    assert(pieces.drop_last().drop_last() =~= Seq::<Seq<char>>::empty());
                    assert(file_name(canonical@) is None);
                }
                lemma_absolute_has_slash(canonical@);
            }
            match parent_path(canonical.as_str()) {
                Some(parent) => {
                    return Ok(
                        TargetLayout { target_root: parent, selection: InitialSelection::Document(canonical) },
                    );
                },
                None => {},
            }
        }
    }
    Err(TargetError::UnsupportedTarget { path: canonical })
}

/// The document root of a target: for a repository scope, the nearest repository around the
/// target's root where there is one.
pub fn document_root_for(target_root: String, repository_root: Option<String>, scope: TargetScope) -> (root: String)
    ensures
        root@ == match (scope, repository_root) {
            (TargetScope::Repository, Some(repository)) => repository@,
            _ => target_root@,
        },
{
    match scope {
        TargetScope::Repository => match repository_root {
            Some(repository) => repository,
            None => target_root,
        },
        TargetScope::Target => target_root,
    }
}

/// Checks that a target lies below no hidden entry of its document root.
pub fn check_hidden_below(document_root: &str, canonical: &str) -> (checked: Result<(), TargetError>)
    ensures
        checked is Ok <==> !has_hidden_entry(document_root@, canonical@),
        checked matches Err(e) ==> (e matches TargetError::HiddenTarget { path } && path@
            == canonical@),
{
    if contains_hidden_entry(document_root, canonical) {
        Err(TargetError::HiddenTarget { path: canonical.to_owned() })
    } else {
        Ok(())
    }
}

/// The ancestors of a normalized absolute path, nearest first, as `Path::ancestors` walks
/// them: the path itself, then each parent up to the root.
pub fn ancestors(path: &str) -> (chain: Vec<String>)
    ensures
        chain@.len() >= 1,
        chain@[0]@ == path@,
        forall|i: int| 0 <= i < chain@.len() - 1 ==> parent_of(#[trigger] chain@[i]@) == Some(
            chain@[i + 1]@,
        ),
        parent_of(chain@.last()@) is None,
{
    let mut chain: Vec<String> = Vec::new();
    let mut current = path.to_owned();
    loop
        invariant
            chain@.len() >= 1 ==> chain@[0]@ == path@,
            chain@.len() == 0 ==> current@ == path@,
            chain@.len() >= 1 ==> parent_of(chain@.last()@) == Some(current@),
            forall|i: int| 0 <= i < chain@.len() - 1 ==> parent_of(#[trigger] chain@[i]@) == Some(
                chain@[i + 1]@,
            ),
        decreases current@.len(),
    {
        let parent = parent_path(current.as_str());
        proof {
            lemma_parent_shorter(current@);
        }
        let ghost before = chain@;
        chain.push(current);
        proof {
            assert forall|i: int| 0 <= i < chain@.len() - 1 implies parent_of(
                #[trigger] chain@[i]@,
            ) == Some(chain@[i + 1]@) by {
                if i < before.len() - 1 {
                    assert(chain@[i] == before[i] && chain@[i + 1] == before[i + 1]);
                } else {
                    assert(chain@[i] == before.last());
                }
            }
        }
        match parent {
            Some(next) => {
                current = next;
            },
            None => {
                return chain;
            },
        }
    }
}

/// The path that a command names: an absolute path as it is, a relative one joined to the
/// directory it was given in, and that directory where none is named.
pub open spec fn requested_path_text(invocation_directory: Seq<char>, path: Option<Seq<char>>) -> Seq<char> {
    match path {
        Some(p) => if is_absolute(p) {
            p
        } else if invocation_directory.len() == 0 || invocation_directory.last() == '/' {
            invocation_directory + p
        } else {
            invocation_directory + seq!['/'] + p
        },
        None => invocation_directory,
    }
}

/// The path that a command names, read from the directory it was given in.
pub fn requested_path(invocation_directory: &str, path: Option<&str>) -> (requested: String)
    ensures
        requested@ == requested_path_text(
            invocation_directory@,
            match path {
                Some(p) => Some(p@),
                None => None,
            },
        ),
{
    let directory = chars_of(invocation_directory);
    match path {
        Some(p) => {
            let chars = chars_of(p);
            if chars.len() > 0 && chars[0] == '/' {
                return p.to_owned();
            }
            let mut joined = invocation_directory.to_owned();
            if directory.len() > 0 && directory[directory.len() - 1] != '/' {
                crate::text::push_char(&mut joined, '/');
            }
            joined.append(p);
            proof {
                if directory@.len() > 0 {
                    assert(directory@.last() == directory@[directory@.len() - 1]);
                }
            }
            joined
        },
        None => invocation_directory.to_owned(),
    }
}

/// A document of a target: its identifier below the document root, where it lies, what it
/// holds and what kind it is.
#[derive(Debug)]
pub struct MarkdownDocument {
    pub identifier: String,
    pub canonical_path: String,
    pub source: String,
    pub kind: DocumentKind,
}

/// Whether a document lies where its identifier says: its canonical path is below the document
/// root at its identifier, which is not empty and has no hidden component, and its kind is that
/// of its path's extension.
pub open spec fn placed_document(root: Seq<char>, document: MarkdownDocument) -> bool {
    &&& relative_to(root, document.canonical_path@) == Some(document.identifier@)
    &&& document.identifier@.len() > 0
    &&& !has_hidden_component(document.identifier@)
    &&& kind_of(document.canonical_path@) == Some(document.kind)
}

/// Whether no two documents share an identifier.
pub open spec fn distinct_identifiers(documents: Seq<MarkdownDocument>) -> bool {
    forall|i: int, j: int|
        0 <= i < documents.len() && 0 <= j < documents.len() && i != j ==> #[trigger] documents[i].identifier@
            != #[trigger] documents[j].identifier@
}

/// Whether identifiers strictly ascend.
pub open spec fn ascending_identifiers(documents: Seq<MarkdownDocument>) -> bool {
    forall|i: int, j: int|
        0 <= i < j < documents.len() ==> text_less(
            #[trigger] documents[i].identifier@,
            #[trigger] documents[j].identifier@,
        )
}

/// What a loaded target is: at least one document, a first document among them, identifiers
/// strictly ascending, and each document where its identifier says below the root.
pub open spec fn loaded_target(root: Seq<char>, documents: Seq<MarkdownDocument>, initial: int) -> bool {
    &&& documents.len() > 0
    &&& 0 <= initial < documents.len()
    &&& ascending_identifiers(documents)
    &&& forall|i: int| 0 <= i < documents.len() ==> placed_document(root, #[trigger] documents[i])
}

impl MarkdownDocument {
    /// The document found at a canonical path below a document root, with what it holds: its
    /// identifier is its path below the root and its kind that of its extension. None where the
    /// path is not below the root, is the root, has a hidden component below it, or is of no
    /// document kind.
    pub fn discovered(root: &str, canonical_path: String, source: String) -> (document: Option<MarkdownDocument>)
        ensures
            match document {
                Some(d) => placed_document(root@, d) && d.canonical_path@ == canonical_path@
                    && d.source@ == source@,
                None => !(relative_to(root@, canonical_path@) matches Some(r) && r.len() > 0
                    && !has_hidden_component(r) && kind_of(canonical_path@) is Some),
            },
    {
        let identifier = match relative_path(root, canonical_path.as_str()) {
            Some(r) => r,
            None => {
                return None;
            },
        };
        if chars_of(identifier.as_str()).len() == 0 {
            return None;
        }
        if contains_hidden_entry(root, canonical_path.as_str()) {
            return None;
        }
        match document_kind(canonical_path.as_str()) {
            Some(kind) => Some(MarkdownDocument { identifier, canonical_path, source, kind }),
            None => None,
        }
    }
}

/// The first index below `n` that satisfies a predicate.
pub open spec fn first_index(n: nat, p: spec_fn(int) -> bool) -> Option<int>
    decreases n,
{
    if n == 0 {
        None
    } else {
        match first_index((n - 1) as nat, p) {
            Some(i) => Some(i),
            None => if p(n - 1) {
                Some(n - 1)
            } else {
                None
            },
        }
    }
}

pub proof fn lemma_first_index(n: nat, p: spec_fn(int) -> bool, at: int)
    requires
        0 <= at < n,
        p(at),
        forall|j: int| 0 <= j < at ==> !#[trigger] p(j),
    ensures
        first_index(n, p) == Some(at),
    decreases n,
{
    if n - 1 > at {
        lemma_first_index((n - 1) as nat, p, at);
    } else {
        lemma_first_index_none(at as nat, p);
    }
}

pub proof fn lemma_first_index_none(n: nat, p: spec_fn(int) -> bool)
    requires
        forall|j: int| 0 <= j < n ==> !#[trigger] p(j),
    ensures
        first_index(n, p) is None,
    decreases n,
{
    if n > 0 {
        lemma_first_index_none((n - 1) as nat, p);
    }
}

pub proof fn lemma_first_index_ext(n: nat, p: spec_fn(int) -> bool, q: spec_fn(int) -> bool)
    requires
        forall|i: int| #[trigger] p(i) == q(i),
    ensures
        first_index(n, p) == first_index(n, q),
    decreases n,
{
    if n > 0 {
        lemma_first_index_ext((n - 1) as nat, p, q);
        assert(p(n - 1) == q(n - 1));
    }
}

/// Whether a document is the README at the root of a directory.
pub open spec fn readme_in(directory: Seq<char>, document: MarkdownDocument) -> bool {
    relative_to(directory, document.canonical_path@) matches Some(identifier) && root_readme(
        identifier,
    )
}

/// Whether a document is the documentation index of a directory.
pub open spec fn index_in(directory: Seq<char>, document: MarkdownDocument) -> bool {
    relative_to(directory, document.canonical_path@) matches Some(identifier) && document_index(
        identifier,
    )
}

/// Whether a document lies in a directory.
pub open spec fn inside(directory: Seq<char>, document: MarkdownDocument) -> bool {
    relative_to(directory, document.canonical_path@) is Some
}

/// The document chosen in a directory: its README, else its documentation index, else the
/// first document inside it.
pub open spec fn directory_choice(documents: Seq<MarkdownDocument>, directory: Seq<char>) -> Option<int> {
    let n = documents.len();
    match first_index(n, |i: int| readme_in(directory, documents[i])) {
        Some(i) => Some(i),
        None => match first_index(n, |i: int| index_in(directory, documents[i])) {
            Some(i) => Some(i),
            None => first_index(n, |i: int| inside(directory, documents[i])),
        },
    }
}

/// The document chosen for a whole document root: the README at the root, else the
/// documentation index, else the first document.
pub open spec fn repository_choice(documents: Seq<MarkdownDocument>) -> int {
    let n = documents.len();
    match first_index(n, |i: int| root_readme(documents[i].identifier@)) {
        Some(i) => i,
        None => match first_index(n, |i: int| document_index(documents[i].identifier@)) {
            Some(i) => i,
            None => 0,
        },
    }
}

/// The first document at a path.
pub open spec fn first_at_path(documents: Seq<MarkdownDocument>, path: Seq<char>) -> Option<int> {
    first_index(documents.len(), |i: int| documents[i].canonical_path@ == path)
}

/// The document a target starts at: the selected document itself, or the one chosen in the
/// selected directory, or else the one chosen for the whole root.
pub open spec fn initial_choice(documents: Seq<MarkdownDocument>, selection: InitialSelection) -> Option<int> {
    match selection {
        InitialSelection::Document(path) => first_at_path(documents, path@),
        InitialSelection::Directory(directory) => match directory_choice(documents, directory@) {
            Some(i) => Some(i),
            None => Some(repository_choice(documents)),
        },
    }
}

/// The position of the document at a path.
fn position_of_path(documents: &[MarkdownDocument], path: &str) -> (found: Option<usize>)
    ensures
        found matches Some(i) ==> first_at_path(documents@, path@) == Some(i as int),
        found is None ==> first_at_path(documents@, path@) is None,
{
    let ghost p = |i: int| documents@[i].canonical_path@ == path@;
    let wanted = chars_of(path);
    let mut index: usize = 0;
    while index < documents.len()
        invariant
            index <= documents@.len(),
            wanted@ == path@,
            p == (|i: int| documents@[i].canonical_path@ == path@),
            forall|j: int| 0 <= j < index ==> !#[trigger] p(j),
        decreases documents@.len() - index,
    {
        let existing = chars_of(documents[index].canonical_path.as_str());
        if crate::text::chars_equal(existing.as_slice(), wanted.as_slice()) {
            proof {
                lemma_first_index(documents@.len(), p, index as int);
            }
            return Some(index);
        }
        index = index + 1;
    }
    proof {
        lemma_first_index_none(documents@.len(), p);
    }
    None
}

/// Whether a document is the README at the root of a directory.
fn is_readme_in(directory: &str, document: &MarkdownDocument) -> (readme: bool)
    ensures
        readme == readme_in(directory@, *document),
{
    match relative_path(directory, document.canonical_path.as_str()) {
        Some(identifier) => is_root_readme(identifier.as_str()),
        None => false,
    }
}

/// Whether a document is the documentation index of a directory.
fn is_index_in(directory: &str, document: &MarkdownDocument) -> (index: bool)
    ensures
        index == index_in(directory@, *document),
{
    match relative_path(directory, document.canonical_path.as_str()) {
        Some(identifier) => is_document_index(identifier.as_str()),
        None => false,
    }
}

/// The document chosen in a directory: its README, else its documentation index, else the
/// first document inside it.
pub fn select_initial_document_in_directory(documents: &[MarkdownDocument], directory: &str) -> (found: Option<usize>)
    ensures
        match found {
            Some(i) => directory_choice(documents@, directory@) == Some(i as int),
            None => directory_choice(documents@, directory@) is None,
        },
{
    let ghost n = documents@.len();
    let ghost readme = |i: int| readme_in(directory@, documents@[i]);
    let ghost index_doc = |i: int| index_in(directory@, documents@[i]);
    let ghost within = |i: int| inside(directory@, documents@[i]);
    let mut index: usize = 0;
    while index < documents.len()
        invariant
            index <= n,
            n == documents@.len(),
            readme == (|i: int| readme_in(directory@, documents@[i])),
            forall|j: int| 0 <= j < index ==> !#[trigger] readme(j),
        decreases n - index,
    {
        if is_readme_in(directory, &documents[index]) {
            proof {
                lemma_first_index(n, readme, index as int);
            }
            return Some(index);
        }
        index = index + 1;
    }
    proof {
        lemma_first_index_none(n, readme);
    }
    index = 0;
    while index < documents.len()
        invariant
            index <= n,
            n == documents@.len(),
            index_doc == (|i: int| index_in(directory@, documents@[i])),
            readme == (|i: int| readme_in(directory@, documents@[i])),
            first_index(n, readme) is None,
            forall|j: int| 0 <= j < index ==> !#[trigger] index_doc(j),
        decreases n - index,
    {
        if is_index_in(directory, &documents[index]) {
            proof {
                lemma_first_index(n, index_doc, index as int);
            }
            return Some(index);
        }
        index = index + 1;
    }
    proof {
        lemma_first_index_none(n, index_doc);
    }
    index = 0;
    while index < documents.len()
        invariant
            index <= n,
            n == documents@.len(),
            within == (|i: int| inside(directory@, documents@[i])),
            readme == (|i: int| readme_in(directory@, documents@[i])),
            index_doc == (|i: int| index_in(directory@, documents@[i])),
            first_index(n, readme) is None,
            first_index(n, index_doc) is None,
            forall|j: int| 0 <= j < index ==> !#[trigger] within(j),
        decreases n - index,
    {
        if is_within(directory, documents[index].canonical_path.as_str()) {
            proof {
                lemma_first_index(n, within, index as int);
            }
            return Some(index);
        }
        index = index + 1;
    }
    proof {
        lemma_first_index_none(n, within);
    }
    None
}

/// The document chosen for a whole document root: the README at the root, else the
/// documentation index, else the first document.
pub fn select_repository_initial_document(documents: &[MarkdownDocument]) -> (found: Option<usize>)
    ensures
        found matches Some(i) && i as int == repository_choice(documents@),
        documents@.len() > 0 ==> 0 <= repository_choice(documents@) < documents@.len(),
{
    let ghost n = documents@.len();
    let ghost readme = |i: int| root_readme(documents@[i].identifier@);
    let ghost index_doc = |i: int| document_index(documents@[i].identifier@);
    let mut index: usize = 0;
    while index < documents.len()
        invariant
            index <= n,
            n == documents@.len(),
            readme == (|i: int| root_readme(documents@[i].identifier@)),
            forall|j: int| 0 <= j < index ==> !#[trigger] readme(j),
        decreases n - index,
    {
        if is_root_readme(documents[index].identifier.as_str()) {
            proof {
                lemma_first_index(n, readme, index as int);
            }
            return Some(index);
        }
        index = index + 1;
    }
    proof {
        lemma_first_index_none(n, readme);
    }
    index = 0;
    while index < documents.len()
        invariant
            index <= n,
            n == documents@.len(),
            index_doc == (|i: int| document_index(documents@[i].identifier@)),
            readme == (|i: int| root_readme(documents@[i].identifier@)),
            first_index(n, readme) is None,
            forall|j: int| 0 <= j < index ==> !#[trigger] index_doc(j),
        decreases n - index,
    {
        if is_document_index(documents[index].identifier.as_str()) {
            proof {
                lemma_first_index(n, index_doc, index as int);
            }
            return Some(index);
        }
        index = index + 1;
    }
    proof {
        lemma_first_index_none(n, index_doc);
    }
    Some(0)
}

/// The document a target starts at.
pub fn select_initial_document(documents: &[MarkdownDocument], selection: &InitialSelection) -> (found: Option<usize>)
    ensures
        found matches Some(i) ==> initial_choice(documents@, *selection) == Some(i as int),
        found is None ==> initial_choice(documents@, *selection) is None,
{
    match selection {
        InitialSelection::Document(path) => {
            position_of_path(documents, path.as_str())
        },
        InitialSelection::Directory(directory) => {
            match select_initial_document_in_directory(documents, directory.as_str()) {
                Some(i) => Some(i),
                None => select_repository_initial_document(documents),
            }
        },
    }
}

/// Whether documents are in identifier order.
pub open spec fn sorted_by_identifier(documents: Seq<MarkdownDocument>) -> bool {
    forall|i: int, j: int|
        0 <= i < j < documents.len() ==> !text_less(
            #[trigger] documents[j].identifier@,
            #[trigger] documents[i].identifier@,
        )
}

proof fn lemma_text_le_transitive(a: Seq<char>, b: Seq<char>, c: Seq<char>)
    requires
        !text_less(b, a),
        !text_less(c, b),
    ensures
        !text_less(c, a),
{
    lemma_text_less_total(a, b);
    if text_less(c, a) && a != b {
        lemma_text_less_transitive(c, a, b);
    }
}

proof fn lemma_insert_to_multiset<A>(s: Seq<A>, at: int, x: A)
    requires
        0 <= at <= s.len(),
    ensures
        s.insert(at, x).to_multiset() =~= s.to_multiset().insert(x),
{
    broadcast use vstd::seq_lib::group_to_multiset_ensures;

    let t = s.insert(at, x);
    assert(t.remove(at) =~= s);
    assert(t[at] == x);
    assert(t.contains(x));
    assert(t.to_multiset().count(x) > 0);
}

/// Documents in identifier order, as a stable sort by identifier leaves them.
pub fn sort_documents(documents: Vec<MarkdownDocument>) -> (sorted: Vec<MarkdownDocument>)
    ensures
        sorted_by_identifier(sorted@),
        sorted@.to_multiset() == documents@.to_multiset(),
{
    broadcast use vstd::seq_lib::group_to_multiset_ensures;

    let mut rest = documents;
    let mut sorted: Vec<MarkdownDocument> = Vec::new();
    assert(sorted@.to_multiset().add(rest@.to_multiset()) =~= documents@.to_multiset());
    while rest.len() > 0
        invariant
            sorted_by_identifier(sorted@),
            sorted@.to_multiset().add(rest@.to_multiset()) == documents@.to_multiset(),
        decreases rest@.len(),
    {
        let ghost rest_before = rest@;
        let document = rest.pop().unwrap();
        proof {
            assert(rest_before =~= rest@.push(document));
            vstd::seq_lib::to_multiset_build(rest@, document);
            assert(rest_before.to_multiset() =~= rest@.to_multiset().insert(document));
        }
        let key = chars_of(document.identifier.as_str());
        let mut position: usize = 0;
        while position < sorted.len() && crate::identifiers::chars_less(
            chars_of(sorted[position].identifier.as_str()).as_slice(),
            key.as_slice(),
        )
            invariant
                position <= sorted@.len(),
                key@ == document.identifier@,
                forall|i: int| 0 <= i < position ==> text_less(#[trigger] sorted@[i].identifier@, key@),
            decreases sorted@.len() - position,
        {
            position = position + 1;
        }
        let ghost before = sorted@;
        sorted.insert(position, document);
        proof {
            lemma_insert_to_multiset(before, position as int, document);
            assert(sorted@.to_multiset().add(rest@.to_multiset()) =~= documents@.to_multiset());
            let after = sorted@;
            assert forall|i: int, j: int| 0 <= i < j < after.len() implies !text_less(
                #[trigger] after[j].identifier@,
                #[trigger] after[i].identifier@,
            ) by {
                let p = position as int;
                if j < p {
                    assert(after[i] == before[i] && after[j] == before[j]);
                } else if j == p {
                    assert(after[i] == before[i]);
                    lemma_text_less_total(before[i].identifier@, key@);
                } else if i < p {
                    assert(after[i] == before[i] && after[j] == before[j - 1]);
                } else if i == p {
                    assert(after[j] == before[j - 1]);
                    assert(!text_less(before[p].identifier@, key@));
                    if j - 1 > p {
                        lemma_text_le_transitive(
                            key@,
                            before[p].identifier@,
                            before[j - 1].identifier@,
                        );
                    }
                } else {
                    assert(after[i] == before[i - 1] && after[j] == before[j - 1]);
                }
            }
        }
    }
    assert(rest@.to_multiset() =~= Multiset::empty());
    assert(sorted@.to_multiset() =~= sorted@.to_multiset().add(rest@.to_multiset()));
    sorted
}

/// The documents of a target, its document root and the document it starts at. The documents
/// are in identifier order, and the one it starts at is one of them.
#[derive(Debug)]
pub struct MarkdownTarget {
    document_root: String,
    documents: Vec<MarkdownDocument>,
    initial_document: usize,
}

impl MarkdownTarget {
    #[verifier::type_invariant]
    spec fn well_formed(&self) -> bool {
        &&& sorted_by_identifier(self.documents@)
        &&& loaded_target(self.document_root@, self.documents@, self.initial_document as int)
    }

    /// The document root.
    pub closed spec fn root_view(&self) -> Seq<char> {
        self.document_root@
    }

    /// The documents, in identifier order.
    pub closed spec fn documents_view(&self) -> Seq<MarkdownDocument> {
        self.documents@
    }

    /// The position of the document the target starts at.
    pub closed spec fn initial_view(&self) -> int {
        self.initial_document as int
    }

    /// The document root.
    pub fn document_root(&self) -> (root: &String)
        ensures
            root@ == self.root_view(),
    {
        &self.document_root
    }

    /// The documents, in identifier order.
    pub fn documents(&self) -> (documents: &Vec<MarkdownDocument>)
        ensures
            documents@ == self.documents_view(),
            sorted_by_identifier(documents@),
    {
        proof {
            use_type_invariant(self);
        }
        &self.documents
    }

    /// The position of the document the target starts at.
    pub fn initial_document(&self) -> (initial: usize)
        ensures
            initial as int == self.initial_view(),
            initial < self.documents_view().len(),
    {
        proof {
            use_type_invariant(self);
        }
        self.initial_document
    }

    /// The document root, the documents and the position of the first one to show.
    pub fn into_parts(self) -> (parts: (String, Vec<MarkdownDocument>, usize))
        ensures
            parts.0@ == self.root_view(),
            parts.1@ == self.documents_view(),
            parts.2 as int == self.initial_view(),
            parts.2 < parts.1@.len(),
            sorted_by_identifier(parts.1@),
            loaded_target(parts.0@, parts.1@, parts.2 as int),
    {
        proof {
            use_type_invariant(&self);
        }
        (self.document_root, self.documents, self.initial_document)
    }
}

/// Whether a selection is of a document that is not among the documents found.
pub open spec fn selection_missing(documents: Seq<MarkdownDocument>, selection: InitialSelection) -> bool {
    match selection {
        InitialSelection::Document(path) => forall|i: int|
            0 <= i < documents.len() ==> #[trigger] documents[i].canonical_path@ != path@,
        InitialSelection::Directory(_) => false,
    }
}

/// The target that the documents found below a document root make: they are put in
/// identifier order, and the document to start at is chosen among them. A root without
/// documents is refused. The target is a loaded target: documents, a first one among them,
/// identifiers strictly ascending, each document where its identifier says.
pub fn finish_target(document_root: String, documents: Vec<MarkdownDocument>, selection: &InitialSelection) -> (target: Result<MarkdownTarget, TargetError>)
    requires
        documents@.len() > 0 ==> !selection_missing(documents@, *selection),
        forall|i: int| 0 <= i < documents@.len() ==> placed_document(document_root@, #[trigger] documents@[i]),
        distinct_identifiers(documents@),
    ensures
        target matches Ok(t) ==> loaded_target(t.root_view(), t.documents_view(), t.initial_view()),
        documents@.len() == 0 ==> (target matches Err(TargetError::NoMarkdownDocuments { path })
            && path@ == document_root@),
        documents@.len() > 0 ==> (target matches Ok(t) && t.root_view() == document_root@
            && t.documents_view().to_multiset() == documents@.to_multiset() && sorted_by_identifier(
            t.documents_view(),
        ) && initial_choice(t.documents_view(), *selection) == Some(t.initial_view())),
{
    broadcast use vstd::seq_lib::group_to_multiset_ensures;

    let ghost given = documents@;
    if documents.len() == 0 {
        return Err(TargetError::NoMarkdownDocuments { path: document_root });
    }
    let sorted = sort_documents(documents);
    proof {
        assert(sorted@.len() == sorted@.to_multiset().len());
        assert(given.len() == given.to_multiset().len());
        lemma_sorted_loaded(given, sorted@, document_root@);
        if let InitialSelection::Document(path) = selection {
            let i = choose|i: int| 0 <= i < given.len() && given[i].canonical_path@ == path@;
            assert(given.contains(given[i]));
            assert(sorted@.to_multiset().count(given[i]) > 0);
            assert(sorted@.contains(given[i]));
            let k = choose|k: int| 0 <= k < sorted@.len() && sorted@[k] == given[i];
            assert(sorted@[k].canonical_path@ == path@);
            assert(!selection_missing(sorted@, *selection));
        }
    }
    match select_initial_document(sorted.as_slice(), selection) {
        Some(initial) => {
            proof {
                lemma_initial_in_range(sorted@, *selection, initial as int);
            }
            Ok(MarkdownTarget { document_root, documents: sorted, initial_document: initial })
        },
        None => {
            proof {
                lemma_initial_found(sorted@, *selection);
            }
            Err(TargetError::NoMarkdownDocuments { path: document_root })
        },
    }
}

proof fn lemma_sorted_loaded(given: Seq<MarkdownDocument>, sorted: Seq<MarkdownDocument>, root: Seq<char>)
    requires
        forall|i: int| 0 <= i < given.len() ==> placed_document(root, #[trigger] given[i]),
        distinct_identifiers(given),
        sorted.to_multiset() == given.to_multiset(),
        sorted_by_identifier(sorted),
    ensures
        forall|i: int| 0 <= i < sorted.len() ==> placed_document(root, #[trigger] sorted[i]),
        ascending_identifiers(sorted),
{
    broadcast use vstd::seq_lib::group_to_multiset_ensures;

    assert forall|i: int| 0 <= i < sorted.len() implies placed_document(root, #[trigger] sorted[i]) by {
        assert(sorted.contains(sorted[i]));
        assert(sorted.to_multiset().count(sorted[i]) > 0);
        assert(given.to_multiset().count(sorted[i]) > 0);
        assert(given.contains(sorted[i]));
    }
    assert(given.no_duplicates()) by {
        assert forall|i: int, j: int| 0 <= i < given.len() && 0 <= j < given.len() && i != j implies given[i]
            != given[j] by {
            assert(given[i].identifier@ != given[j].identifier@);
        }
    }
    given.lemma_multiset_has_no_duplicates();
    sorted.lemma_multiset_has_no_duplicates_conv();
    assert forall|a: int, b: int| 0 <= a < b < sorted.len() implies text_less(
        #[trigger] sorted[a].identifier@,
        #[trigger] sorted[b].identifier@,
    ) by {
        assert(sorted.contains(sorted[a]));
        assert(sorted.contains(sorted[b]));
        assert(sorted.to_multiset().count(sorted[a]) > 0);
        assert(sorted.to_multiset().count(sorted[b]) > 0);
        assert(given.to_multiset().count(sorted[a]) > 0);
        assert(given.to_multiset().count(sorted[b]) > 0);
        assert(given.contains(sorted[a]));
        assert(given.contains(sorted[b]));
        let i = choose|i: int| 0 <= i < given.len() && given[i] == sorted[a];
        let j = choose|j: int| 0 <= j < given.len() && given[j] == sorted[b];
        assert(sorted[a] != sorted[b]);
        assert(i != j);
        assert(given[i].identifier@ != given[j].identifier@);
        lemma_text_less_total(sorted[a].identifier@, sorted[b].identifier@);
    }
}

proof fn lemma_first_index_first(n: nat, p: spec_fn(int) -> bool)
    ensures
        first_index(n, p) matches Some(i) ==> forall|j: int| 0 <= j < i ==> !#[trigger] p(j),
    decreases n,
{
    if n > 0 {
        lemma_first_index_first((n - 1) as nat, p);
        if first_index((n - 1) as nat, p) is None {
            lemma_first_index_none_all((n - 1) as nat, p);
        }
    }
}

proof fn lemma_first_index_none_all(n: nat, p: spec_fn(int) -> bool)
    requires
        first_index(n, p) is None,
    ensures
        forall|j: int| 0 <= j < n ==> !#[trigger] p(j),
    decreases n,
{
    if n > 0 {
        lemma_first_index_none_all((n - 1) as nat, p);
    }
}

/// A directly named file is the document a target starts at: the first document at its path.
pub proof fn lemma_named_file_is_initial(documents: Seq<MarkdownDocument>, path: String, initial: int)
    requires
        initial_choice(documents, InitialSelection::Document(path)) == Some(initial),
    ensures
        0 <= initial < documents.len(),
        documents[initial].canonical_path@ == path@,
        forall|j: int| 0 <= j < initial ==> #[trigger] documents[j].canonical_path@ != path@,
{
    let p = |i: int| documents[i].canonical_path@ == path@;
    lemma_first_index_bounds(documents.len(), p);
    lemma_first_index_first(documents.len(), p);
    assert forall|j: int| 0 <= j < initial implies #[trigger] documents[j].canonical_path@ != path@ by {
        assert(!p(j));
    }
}

proof fn lemma_first_index_bounds(n: nat, p: spec_fn(int) -> bool)
    ensures
        first_index(n, p) matches Some(i) ==> 0 <= i < n && p(i),
    decreases n,
{
    if n > 0 {
        lemma_first_index_bounds((n - 1) as nat, p);
    }
}

proof fn lemma_initial_in_range(documents: Seq<MarkdownDocument>, selection: InitialSelection, initial: int)
    requires
        documents.len() > 0,
        initial_choice(documents, selection) == Some(initial),
    ensures
        0 <= initial < documents.len(),
{
    let n = documents.len();
    match selection {
        InitialSelection::Document(path) => {
            lemma_first_index_bounds(n, |i: int| documents[i].canonical_path@ == path@);
        },
        InitialSelection::Directory(directory) => {
            lemma_first_index_bounds(n, |i: int| readme_in(directory@, documents[i]));
            lemma_first_index_bounds(n, |i: int| index_in(directory@, documents[i]));
            lemma_first_index_bounds(n, |i: int| inside(directory@, documents[i]));
            lemma_first_index_bounds(n, |i: int| root_readme(documents[i].identifier@));
            lemma_first_index_bounds(n, |i: int| document_index(documents[i].identifier@));
        },
    }
}

proof fn lemma_initial_found(documents: Seq<MarkdownDocument>, selection: InitialSelection)
    requires
        documents.len() > 0,
        !selection_missing(documents, selection),
    ensures
        initial_choice(documents, selection) is Some,
{
    if let InitialSelection::Document(path) = selection {
        let i = choose|i: int| 0 <= i < documents.len() && #[trigger] documents[i].canonical_path@ == path@;
        let p = |k: int| documents[k].canonical_path@ == path@;
        if first_index(documents.len(), p) is None {
            lemma_first_index_absent(documents.len(), p, i);
        }
    }
}

proof fn lemma_first_index_absent(n: nat, p: spec_fn(int) -> bool, at: int)
    requires
        0 <= at < n,
        p(at),
    ensures
        first_index(n, p) is Some,
    decreases n,
{
    if at < n - 1 {
        lemma_first_index_absent((n - 1) as nat, p, at);
    }
}

/// The document opened first in a directory: its own README whenever the directory holds
/// one, whatever else it holds (its documentation index included); else its documentation
/// index; else the first document inside it; and none where no document lies inside it.
pub proof fn lemma_directory_prefers_readme(documents: Seq<MarkdownDocument>, directory: Seq<char>)
    ensures
        (exists|i: int| 0 <= i < documents.len() && readme_in(directory, #[trigger] documents[i]))
            ==> (directory_choice(documents, directory) matches Some(c) && 0 <= c < documents.len()
            && readme_in(directory, documents[c])),
        (forall|i: int| 0 <= i < documents.len() ==> !readme_in(directory, #[trigger] documents[i]))
            && (exists|i: int| 0 <= i < documents.len() && index_in(directory, #[trigger] documents[i]))
            ==> (directory_choice(documents, directory) matches Some(c) && 0 <= c < documents.len()
            && index_in(directory, documents[c])),
        (forall|i: int| 0 <= i < documents.len() ==> !inside(directory, #[trigger] documents[i]))
            ==> directory_choice(documents, directory) is None,
        directory_choice(documents, directory) matches Some(c) ==> 0 <= c < documents.len()
            && inside(directory, documents[c]),
{
    let n = documents.len();
    let readme = |i: int| readme_in(directory, documents[i]);
    let index_doc = |i: int| index_in(directory, documents[i]);
    let within = |i: int| inside(directory, documents[i]);
    lemma_first_index_bounds(n, readme);
    lemma_first_index_bounds(n, index_doc);
    lemma_first_index_bounds(n, within);
    if exists|i: int| 0 <= i < n && readme_in(directory, #[trigger] documents[i]) {
        let i = choose|i: int| 0 <= i < n && readme_in(directory, #[trigger] documents[i]);
        lemma_first_index_absent(n, readme, i);
    } else if exists|i: int| 0 <= i < n && index_in(directory, #[trigger] documents[i]) {
        let i = choose|i: int| 0 <= i < n && index_in(directory, #[trigger] documents[i]);
        lemma_first_index_none(n, readme);
        lemma_first_index_absent(n, index_doc, i);
    } else {
        lemma_first_index_none(n, readme);
        lemma_first_index_none(n, index_doc);
        if forall|i: int| 0 <= i < n ==> !inside(directory, #[trigger] documents[i]) {
            lemma_first_index_none(n, within);
        }
    }
}

/// A selected directory starts at its own README whenever it holds one, else at its
/// documentation index, else at its first document; a directory without documents falls back
/// to the README at the document root, else the documentation index, else the first document.
pub proof fn lemma_selected_directory_start(documents: Seq<MarkdownDocument>, directory: String)
    requires
        documents.len() > 0,
    ensures
        (exists|i: int| 0 <= i < documents.len() && readme_in(directory@, #[trigger] documents[i]))
            ==> (initial_choice(documents, InitialSelection::Directory(directory)) matches Some(c)
            && 0 <= c < documents.len() && readme_in(directory@, documents[c])),
        (forall|i: int| 0 <= i < documents.len() ==> !readme_in(directory@, #[trigger] documents[i]))
            && (exists|i: int| 0 <= i < documents.len() && index_in(directory@, #[trigger] documents[i]))
            ==> (initial_choice(documents, InitialSelection::Directory(directory)) matches Some(c)
            && 0 <= c < documents.len() && index_in(directory@, documents[c])),
        (forall|i: int| 0 <= i < documents.len() ==> !inside(directory@, #[trigger] documents[i]))
            && (exists|i: int| 0 <= i < documents.len() && root_readme(#[trigger] documents[i].identifier@))
            ==> (initial_choice(documents, InitialSelection::Directory(directory)) matches Some(c)
            && 0 <= c < documents.len() && root_readme(documents[c].identifier@)),
        initial_choice(documents, InitialSelection::Directory(directory)) matches Some(c) ==> 0 <= c
            < documents.len(),
{
    lemma_directory_prefers_readme(documents, directory@);
    let n = documents.len();
    let readme = |i: int| root_readme(documents[i].identifier@);
    let index_doc = |i: int| document_index(documents[i].identifier@);
    lemma_first_index_bounds(n, readme);
    lemma_first_index_bounds(n, index_doc);
    if exists|i: int| 0 <= i < n && root_readme(#[trigger] documents[i].identifier@) {
        let i = choose|i: int| 0 <= i < n && root_readme(#[trigger] documents[i].identifier@);
        lemma_first_index_absent(n, readme, i);
    }
}

} // verus!
