use vstd::prelude::*;

use std::io::ErrorKind;

use crate::target::{requested_path, requested_path_text};
use crate::text::{decimal_text, digit_char, push_char, push_decimal};

verus! {

/// The kinds of I/O failure that endpoint handling tells apart.
#[derive(Clone, Copy, Debug, PartialEq, Eq, Structural)]
pub enum IoFailureKind {
    NotFound,
    ConnectionRefused,
    WouldBlock,
    AlreadyExists,
    AddrInUse,
    Other,
}

#[verifier::external_type_specification]
#[verifier::external_body]
pub struct ExIoError(std::io::Error);

/// The kind of an I/O error, from `std::io::Error::kind`, among the kinds endpoint handling
/// tells apart; every other kind is `Other`. Nothing is stated of which kind a given error has:
/// the error is opaque here.
#[verifier::external_body]
pub(crate) fn io_failure_kind(source: &std::io::Error) -> (kind: IoFailureKind) {
    match source.kind() {
        ErrorKind::NotFound => IoFailureKind::NotFound,
        ErrorKind::ConnectionRefused => IoFailureKind::ConnectionRefused,
        ErrorKind::WouldBlock => IoFailureKind::WouldBlock,
        ErrorKind::AlreadyExists => IoFailureKind::AlreadyExists,
        ErrorKind::AddrInUse => IoFailureKind::AddrInUse,
        _ => IoFailureKind::Other,
    }
}

/// The operating system's code of an I/O error, from `std::io::Error::raw_os_error`. Nothing
/// is stated of which code a given error has: the error is opaque here.
#[verifier::external_body]
fn io_raw_os_error(source: &std::io::Error) -> (code: Option<i32>) {
    source.raw_os_error()
}

/// The text of an I/O error, from its `Display`. Nothing is stated of the text: the error is
/// opaque here.
#[verifier::external_body]
pub(crate) fn io_error_text(source: &std::io::Error) -> (text: String) {
    source.to_string()
}

/// Why the command endpoint could not be used.
#[derive(Debug)]
pub enum EndpointError {
    AlreadyOwned,
    UnsafeRuntimeDirectory { path: String, reason: String },
    UnsafeEndpoint { path: String, reason: String },
    UnauthorizedPeer { peer: u32, owner: u32 },
    UnauthorizedPeerIdentity { peer: String, owner: String },
    Io { context: &'static str, kind: IoFailureKind, raw_os_error: Option<i32>, message: String },
}

/// Whether an endpoint error says that no service is there: the endpoint is missing or refuses
/// connections, or the system reports that the file or path is not found.
pub open spec fn absent(error: EndpointError) -> bool {
    match error {
        EndpointError::Io { kind, raw_os_error, .. } => kind == IoFailureKind::NotFound || kind
            == IoFailureKind::ConnectionRefused || raw_os_error == Some(2i32) || raw_os_error
            == Some(3i32),
        _ => false,
    }
}

/// Whether an endpoint error says that the service is there but busy: the operation would
/// block, or every pipe instance is busy.
pub open spec fn busy(error: EndpointError) -> bool {
    match error {
        EndpointError::Io { kind, raw_os_error, .. } => kind == IoFailureKind::WouldBlock
            || raw_os_error == Some(231i32),
        _ => false,
    }
}

/// The sentence that describes an endpoint error.
pub open spec fn endpoint_error_text(error: EndpointError) -> Seq<char> {
    match error {
        EndpointError::AlreadyOwned => "another Lens background service owns the current user's endpoint"@,
        EndpointError::UnsafeRuntimeDirectory { path, reason } => "unsafe Lens runtime directory "@
            + path@ + ": "@ + reason@,
        EndpointError::UnsafeEndpoint { path, reason } => "unsafe existing Lens endpoint "@ + path@
            + ": "@ + reason@,
        EndpointError::UnauthorizedPeer { peer, owner } => "endpoint peer user "@ + decimal_text(
            peer as nat,
        ) + " does not match owner user "@ + decimal_text(owner as nat),
        EndpointError::UnauthorizedPeerIdentity { peer, owner } => "endpoint peer identity "@
            + peer@ + " does not match owner identity "@ + owner@,
        EndpointError::Io { context, message, .. } => context@ + ": "@ + message@,
    }
}

impl EndpointError {
    /// An I/O failure, with what was being done and what the error says of itself.
    pub fn io(context: &'static str, source: std::io::Error) -> (error: Self)
        ensures
            error matches EndpointError::Io { context: c, .. } && c == context,
    {
        let kind = io_failure_kind(&source);
        let raw_os_error = io_raw_os_error(&source);
        let message = io_error_text(&source);
        EndpointError::Io { context, kind, raw_os_error, message }
    }

    /// Whether this error says that no service is there.
    pub fn is_absent(&self) -> (result: bool)
        ensures
            result == absent(*self),
    {
        match self {
            EndpointError::Io { kind, raw_os_error, .. } => {
                let code_absent = match raw_os_error {
                    Some(code) => *code == 2 || *code == 3,
                    None => false,
                };
                *kind == IoFailureKind::NotFound || *kind == IoFailureKind::ConnectionRefused
                    || code_absent
            },
            _ => false,
        }
    }

    /// Whether this error says that the service is there but busy.
    pub fn is_busy(&self) -> (result: bool)
        ensures
            result == busy(*self),
    {
        match self {
            EndpointError::Io { kind, raw_os_error, .. } => {
                let code_busy = match raw_os_error {
                    Some(code) => *code == 231,
                    None => false,
                };
                *kind == IoFailureKind::WouldBlock || code_busy
            },
            _ => false,
        }
    }

    /// Whether this error says that the service cannot be reached now: it is absent or busy.
    pub fn is_unavailable(&self) -> (result: bool)
        ensures
            result == (absent(*self) || busy(*self)),
    {
        self.is_absent() || self.is_busy()
    }

    /// The sentence that describes this error.
    pub fn message(&self) -> (text: String)
        ensures
            text@ == endpoint_error_text(*self),
    {
        let mut text = String::new();
        match self {
            EndpointError::AlreadyOwned => {
                text.append("another Lens background service owns the current user's endpoint");
            },
            EndpointError::UnsafeRuntimeDirectory { path, reason } => {
                text.append("unsafe Lens runtime directory ");
                text.append(path.as_str());
                text.append(": ");
                text.append(reason.as_str());
            },
            EndpointError::UnsafeEndpoint { path, reason } => {
                text.append("unsafe existing Lens endpoint ");
                text.append(path.as_str());
                text.append(": ");
                text.append(reason.as_str());
            },
            EndpointError::UnauthorizedPeer { peer, owner } => {
                text.append("endpoint peer user ");
                push_decimal(&mut text, *peer as u64);
                text.append(" does not match owner user ");
                push_decimal(&mut text, *owner as u64);
            },
            EndpointError::UnauthorizedPeerIdentity { peer, owner } => {
                text.append("endpoint peer identity ");
                text.append(peer.as_str());
                text.append(" does not match owner identity ");
                text.append(owner.as_str());
            },
            EndpointError::Io { context, message, .. } => {
                text.append(context);
                text.append(": ");
                text.append(message.as_str());
            },
        }
        text
    }
}

/// Accepts a peer that runs as the owning user and refuses any other.
pub fn authorize_user(peer: u32, owner: u32) -> (checked: Result<(), EndpointError>)
    ensures
        peer == owner ==> checked is Ok,
        peer != owner ==> (checked matches Err(EndpointError::UnauthorizedPeer { peer: p, owner: o })
            && p == peer && o == owner),
{
    if peer == owner {
        Ok(())
    } else {
        Err(EndpointError::UnauthorizedPeer { peer, owner })
    }
}

/// Accepts a peer whose identity is the owner's and refuses any other.
pub fn authorize_identity(peer: String, owner: String) -> (checked: Result<(), EndpointError>)
    ensures
        peer@ == owner@ ==> checked is Ok,
        peer@ != owner@ ==> (checked matches Err(
            EndpointError::UnauthorizedPeerIdentity { peer: p, owner: o },
        ) && p@ == peer@ && o@ == owner@),
{
    let peer_chars = crate::text::chars_of(peer.as_str());
    let owner_chars = crate::text::chars_of(owner.as_str());
    if crate::text::chars_equal(peer_chars.as_slice(), owner_chars.as_slice()) {
        Ok(())
    } else {
        Err(EndpointError::UnauthorizedPeerIdentity { peer, owner })
    }
}

/// The private runtime directory of a user: `lens` in the runtime directory the environment
/// names, else `lens-runtime-` and the user's number in the temporary directory.
pub open spec fn runtime_directory_text(xdg: Option<Seq<char>>, fallback_parent: Seq<char>, uid: u32) -> Seq<char> {
    match xdg {
        Some(base) => requested_path_text(base, Some("lens"@)),
        None => requested_path_text(
            fallback_parent,
            Some("lens-runtime-"@ + decimal_text(uid as nat)),
        ),
    }
}

/// The private runtime directory of a user.
pub fn runtime_directory_for(xdg: Option<&str>, fallback_parent: &str, uid: u32) -> (directory: String)
    ensures
        directory@ == runtime_directory_text(
            match xdg {
                Some(x) => Some(x@),
                None => None,
            },
            fallback_parent@,
            uid,
        ),
{
    match xdg {
        Some(base) => requested_path(base, Some("lens")),
        None => {
            let mut name = String::new();
            name.append("lens-runtime-");
            push_decimal(&mut name, uid as u64);
            requested_path(fallback_parent, Some(name.as_str()))
        },
    }
}

/// The octal digits of a number.
pub open spec fn octal_text(n: nat) -> Seq<char>
    decreases n,
{
    if n < 8 {
        seq![digit_char(n)]
    } else {
        octal_text(n / 8).push(digit_char(n % 8))
    }
}

/// Appends the octal digits of a number.
pub fn push_octal(out: &mut String, n: u32)
    ensures
        final(out)@ == old(out)@ + octal_text(n as nat),
    decreases n,
{
    if n >= 8 {
        push_octal(out, n / 8);
    }
    let d = (n % 8) as u8;
    push_char(out, (48u8 + d) as char);
    proof {
        assert(octal_text(n as nat) =~= if n < 8 {
            seq![digit_char(n as nat)]
        } else {
            octal_text((n / 8) as nat).push(digit_char((n % 8) as nat))
        });
    }
}

/// What the metadata of a path shows, without following links.
#[derive(Clone, Copy, Debug)]
pub struct EntryFacts {
    pub is_dir: bool,
    pub is_socket: bool,
    pub uid: u32,
    pub mode: u32,
    pub device: u64,
    pub inode: u64,
}

/// The reason a runtime directory is unsafe, if it is: it must be a directory of the current
/// user that grants nothing to its group or to others.
pub open spec fn runtime_directory_problem(facts: EntryFacts, owner: u32) -> Option<Seq<char>> {
    if !facts.is_dir {
        Some("the path is not a directory"@)
    } else if facts.uid != owner {
        Some(
            "owner user "@ + decimal_text(facts.uid as nat) + " does not match current user "@
                + decimal_text(owner as nat),
        )
    } else if facts.mode % 64 != 0 {
        Some(
            "permissions "@ + octal_text((facts.mode % 512) as nat)
                + " allow group or other access"@,
        )
    } else {
        None
    }
}

/// Checks that a runtime directory is private to the current user.
pub fn check_runtime_directory(path: &str, facts: &EntryFacts, owner: u32) -> (checked: Result<(), EndpointError>)
    ensures
        runtime_directory_problem(*facts, owner) is None ==> checked is Ok,
        runtime_directory_problem(*facts, owner) matches Some(reason) ==> (checked matches Err(
            EndpointError::UnsafeRuntimeDirectory { path: p, reason: r },
        ) && p@ == path@ && r@ == reason),
{
    let mut reason = String::new();
    if !facts.is_dir {
        reason.append("the path is not a directory");
    } else if facts.uid != owner {
        reason.append("owner user ");
        push_decimal(&mut reason, facts.uid as u64);
        reason.append(" does not match current user ");
        push_decimal(&mut reason, owner as u64);
    } else if facts.mode % 64 != 0 {
        reason.append("permissions ");
        push_octal(&mut reason, facts.mode % 512);
        reason.append(" allow group or other access");
    } else {
        return Ok(());
    }
    Err(EndpointError::UnsafeRuntimeDirectory { path: path.to_owned(), reason })
}

/// The reason an existing endpoint may not be removed as stale, if there is one: a service that
/// still answers owns it; otherwise it must be a socket of the current user.
pub open spec fn stale_candidate_problem(facts: EntryFacts, connectable: bool, owner: u32) -> Option<
    Option<Seq<char>>,
> {
    if connectable {
        Some(None)
    } else if !facts.is_socket {
        Some(Some("the existing path is not a Unix socket"@))
    } else if facts.uid != owner {
        Some(
            Some(
                "socket owner user "@ + decimal_text(facts.uid as nat)
                    + " does not match current user "@ + decimal_text(owner as nat),
            ),
        )
    } else {
        None
    }
}

/// Checks that an existing endpoint is a stale socket of the current user: one that a service
/// still answers on is owned, and anything else is unsafe to remove.
pub fn check_stale_candidate(path: &str, facts: &EntryFacts, connectable: bool, owner: u32) -> (checked: Result<(), EndpointError>)
    ensures
        stale_candidate_problem(*facts, connectable, owner) is None ==> checked is Ok,
        stale_candidate_problem(*facts, connectable, owner) == Some(None::<Seq<char>>) ==> (
        checked matches Err(EndpointError::AlreadyOwned)),
        stale_candidate_problem(*facts, connectable, owner) matches Some(Some(reason)) ==> (
        checked matches Err(EndpointError::UnsafeEndpoint { path: p, reason: r }) && p@ == path@
            && r@ == reason),
{
    if connectable {
        return Err(EndpointError::AlreadyOwned);
    }
    let mut reason = String::new();
    if !facts.is_socket {
        reason.append("the existing path is not a Unix socket");
    } else if facts.uid != owner {
        reason.append("socket owner user ");
        push_decimal(&mut reason, facts.uid as u64);
        reason.append(" does not match current user ");
        push_decimal(&mut reason, owner as u64);
    } else {
        return Ok(());
    }
    Err(EndpointError::UnsafeEndpoint { path: path.to_owned(), reason })
}

/// Whether a second look at an endpoint shows the same socket of the same user.
pub open spec fn unchanged_socket(first: EntryFacts, second: EntryFacts, owner: u32) -> bool {
    second.is_socket && second.uid == owner && second.device == first.device && second.inode
        == first.inode
}

/// Checks that an endpoint did not change between two looks at it.
pub fn check_unchanged(path: &str, first: &EntryFacts, second: &EntryFacts, owner: u32) -> (checked: Result<(), EndpointError>)
    ensures
        unchanged_socket(*first, *second, owner) ==> checked is Ok,
        !unchanged_socket(*first, *second, owner) ==> (checked matches Err(
            EndpointError::UnsafeEndpoint { path: p, reason: r },
        ) && p@ == path@ && r@ == "the endpoint changed during stale-socket verification"@),
{
    if second.is_socket && second.uid == owner && second.device == first.device && second.inode
        == first.inode {
        Ok(())
    } else {
        Err(
            EndpointError::UnsafeEndpoint {
                path: path.to_owned(),
                reason: "the endpoint changed during stale-socket verification".to_owned(),
            },
        )
    }
}

/// Whether a listener still owns its endpoint when it closes: the path is still its socket, of
/// the current user, on the same device and inode.
pub fn owns_endpoint(facts: &EntryFacts, owner: u32, device: u64, inode: u64) -> (owned: bool)
    ensures
        owned == (facts.is_socket && facts.uid == owner && facts.device == device && facts.inode
            == inode),
{
    facts.is_socket && facts.uid == owner && facts.device == device && facts.inode == inode
}

/// The error of a failed attempt to lock the endpoint's lock file: a lock that another process
/// holds (the system reports that the lock would block) means another service owns the
/// endpoint; any other failure is kept.
pub fn lock_failure(failure: EndpointError, would_block: i32, again: i32) -> (error: EndpointError)
    ensures
        (failure matches EndpointError::Io { raw_os_error: Some(code), .. } && (code == would_block
            || code == again)) ==> error matches EndpointError::AlreadyOwned,
        !(failure matches EndpointError::Io { raw_os_error: Some(code), .. } && (code == would_block
            || code == again)) ==> error == failure,
{
    if let EndpointError::Io { raw_os_error: Some(code), .. } = &failure {
        if *code == would_block || *code == again {
            return EndpointError::AlreadyOwned;
        }
    }
    failure
}

/// The error of a failed bind of the endpoint: an address in use means another service owns
/// it; any other failure is kept.
pub fn bind_failure(failure: EndpointError) -> (error: EndpointError)
    ensures
        (failure matches EndpointError::Io { kind, .. } && kind == IoFailureKind::AddrInUse)
            ==> error matches EndpointError::AlreadyOwned,
        !(failure matches EndpointError::Io { kind, .. } && kind == IoFailureKind::AddrInUse)
            ==> error == failure,
{
    if let EndpointError::Io { kind, .. } = &failure {
        if *kind == IoFailureKind::AddrInUse {
            return EndpointError::AlreadyOwned;
        }
    }
    failure
}

/// The error of a failed removal of a stale endpoint: a path that is already gone means another
/// service took the endpoint over; any other failure is kept.
pub fn removal_failure(failure: EndpointError) -> (error: EndpointError)
    ensures
        (failure matches EndpointError::Io { kind, .. } && kind == IoFailureKind::NotFound)
            ==> error matches EndpointError::AlreadyOwned,
        !(failure matches EndpointError::Io { kind, .. } && kind == IoFailureKind::NotFound)
            ==> error == failure,
{
    if let EndpointError::Io { kind, .. } = &failure {
        if *kind == IoFailureKind::NotFound {
            return EndpointError::AlreadyOwned;
        }
    }
    failure
}

} // verus!
