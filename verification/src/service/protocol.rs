use vstd::prelude::*;

use crate::target::TargetScope;
use crate::text::{decimal_text, push_decimal};

verus! {

/// The largest payload a protocol frame may declare.
pub const MAX_FRAME_BYTES: usize = 65536;

/// The version of the command protocol that a request speaks.
#[derive(Clone, Copy, Debug, PartialEq, Eq, Structural)]
pub struct ProtocolVersion(pub u16);

/// The protocol version this library speaks.
pub const CURRENT_PROTOCOL_VERSION: u16 = 1;

impl ProtocolVersion {
    /// The protocol version this library speaks.
    pub fn current() -> (version: Self)
        ensures
            version.0 == CURRENT_PROTOCOL_VERSION,
    {
        ProtocolVersion(CURRENT_PROTOCOL_VERSION)
    }
}

/// The identifier a command gives its request, so that a retried request is recognized.
#[derive(Clone, Copy, Debug)]
pub struct RequestId(pub [u8; 16]);

impl RequestId {
    /// The identifier made of sixteen bytes.
    pub fn from_bytes(bytes: [u8; 16]) -> (id: Self)
        ensures
            id.0 == bytes,
    {
        RequestId(bytes)
    }

    /// Whether two identifiers have the same bytes.
    pub fn same_as(&self, other: &RequestId) -> (same: bool)
        ensures
            same == (self.0@ == other.0@),
    {
        let mut index: usize = 0;
        while index < 16
            invariant
                index <= 16,
                self.0@.len() == 16,
                other.0@.len() == 16,
                forall|i: int| 0 <= i < index ==> self.0@[i] == other.0@[i],
            decreases 16 - index,
        {
            if self.0[index] != other.0[index] {
                return false;
            }
            index = index + 1;
        }
        assert(self.0@ =~= other.0@);
        true
    }
}

/// A path as it crosses the command protocol: the bytes of a Unix path or the UTF-16 units of
/// a Windows path.
#[derive(Debug)]
pub enum WirePath {
    Unix(Vec<u8>),
    Windows(Vec<u16>),
}

/// The platform that reads a path from the protocol.
#[derive(Clone, Copy, Debug, PartialEq, Eq, Structural)]
pub enum PathPlatform {
    Unix,
    Windows,
}

/// A request to open a viewing session for a target.
#[derive(Debug)]
pub struct OpenRequest {
    pub protocol_version: ProtocolVersion,
    pub request_id: RequestId,
    pub invocation_directory: WirePath,
    pub target: Option<WirePath>,
    pub scope: TargetScope,
    pub plantuml_server: Option<String>,
}

/// A request to stop the background service.
#[derive(Debug)]
pub struct StopRequest {
    pub protocol_version: ProtocolVersion,
}

/// A request that a command sends to the background service.
#[derive(Debug)]
pub enum ServiceRequest {
    Open(OpenRequest),
    Stop(StopRequest),
}

/// Why an open request was refused.
#[derive(Clone, Copy, Debug, PartialEq, Eq, Structural)]
pub enum OpenErrorCode {
    Target,
    Session,
    ServiceStopping,
}

/// A refusal of an open request, with the sentence that explains it.
#[derive(Clone, Debug)]
pub struct OpenError {
    pub code: OpenErrorCode,
    pub message: String,
}

/// What the background service answers a request.
#[derive(Clone, Debug)]
pub enum ServiceResponse {
    Ready { request_id: RequestId, view_url: String },
    Rejected { request_id: RequestId, error: OpenError },
    Incompatible { supported_version: ProtocolVersion },
    Stopped,
}

/// Why a protocol exchange failed.
#[derive(Debug)]
pub enum ProtocolError {
    Io(String),
    OversizedFrame { declared: usize, maximum: usize },
    MalformedJson(String),
    IncompatibleVersion { received: ProtocolVersion, supported: ProtocolVersion },
    WrongPathEncoding { received: &'static str, expected: &'static str },
    InvalidNativePath,
}

/// The sentence that describes a protocol error.
pub open spec fn protocol_error_text(error: ProtocolError) -> Seq<char> {
    match error {
        ProtocolError::Io(reason) => "I/O failed while transferring a protocol frame: "@ + reason@,
        ProtocolError::OversizedFrame { declared, maximum } => "protocol frame declares "@
            + decimal_text(declared as nat) + " bytes; maximum is "@ + decimal_text(
            maximum as nat,
        ),
        ProtocolError::MalformedJson(reason) => "protocol frame contains malformed JSON: "@
            + reason@,
        ProtocolError::IncompatibleVersion { received, supported } => "protocol version ProtocolVersion("@
            + decimal_text(received.0 as nat) + ") is incompatible; supported version is ProtocolVersion("@
            + decimal_text(supported.0 as nat) + ")"@,
        ProtocolError::WrongPathEncoding { received, expected } => "received "@ + received@
            + " path encoding on a platform that requires "@ + expected@,
        ProtocolError::InvalidNativePath => "native path contains a null unit"@,
    }
}

impl ProtocolError {
    /// The sentence that describes this error.
    pub fn message(&self) -> (text: String)
        ensures
            text@ == protocol_error_text(*self),
    {
        let mut text = String::new();
        match self {
            ProtocolError::Io(reason) => {
                text.append("I/O failed while transferring a protocol frame: ");
                text.append(reason.as_str());
            },
            ProtocolError::OversizedFrame { declared, maximum } => {
                text.append("protocol frame declares ");
                push_decimal(&mut text, *declared as u64);
                text.append(" bytes; maximum is ");
                push_decimal(&mut text, *maximum as u64);
            },
            ProtocolError::MalformedJson(reason) => {
                text.append("protocol frame contains malformed JSON: ");
                text.append(reason.as_str());
            },
            ProtocolError::IncompatibleVersion { received, supported } => {
                text.append("protocol version ProtocolVersion(");
                push_decimal(&mut text, received.0 as u64);
                text.append(") is incompatible; supported version is ProtocolVersion(");
                push_decimal(&mut text, supported.0 as u64);
                text.append(")");
            },
            ProtocolError::WrongPathEncoding { received, expected } => {
                text.append("received ");
                text.append(received);
                text.append(" path encoding on a platform that requires ");
                text.append(expected);
            },
            ProtocolError::InvalidNativePath => {
                text.append("native path contains a null unit");
            },
        }
        text
    }
}

impl ServiceRequest {
    /// The protocol version a request speaks.
    pub open spec fn version_of(&self) -> ProtocolVersion {
        match self {
            ServiceRequest::Open(request) => request.protocol_version,
            ServiceRequest::Stop(request) => request.protocol_version,
        }
    }

    /// Accepts a request of the current protocol version and refuses any other.
    pub fn validate_version(&self) -> (checked: Result<(), ProtocolError>)
        ensures
            self.version_of().0 == CURRENT_PROTOCOL_VERSION ==> checked is Ok,
            self.version_of().0 != CURRENT_PROTOCOL_VERSION ==> checked == Err::<(), ProtocolError>(
                ProtocolError::IncompatibleVersion {
                    received: self.version_of(),
                    supported: ProtocolVersion(CURRENT_PROTOCOL_VERSION),
                },
            ),
    {
        let received = match self {
            ServiceRequest::Open(request) => request.protocol_version,
            ServiceRequest::Stop(request) => request.protocol_version,
        };
        if received.0 == CURRENT_PROTOCOL_VERSION {
            Ok(())
        } else {
            Err(
                ProtocolError::IncompatibleVersion {
                    received,
                    supported: ProtocolVersion::current(),
                },
            )
        }
    }
}

/// Refuses a frame size above the largest a frame may declare.
pub fn ensure_frame_size(size: usize) -> (checked: Result<(), ProtocolError>)
    ensures
        size <= MAX_FRAME_BYTES ==> checked is Ok,
        size > MAX_FRAME_BYTES ==> checked == Err::<(), ProtocolError>(
            ProtocolError::OversizedFrame { declared: size, maximum: MAX_FRAME_BYTES },
        ),
{
    if size > MAX_FRAME_BYTES {
        Err(ProtocolError::OversizedFrame { declared: size, maximum: MAX_FRAME_BYTES })
    } else {
        Ok(())
    }
}

/// The four big-endian bytes of a size below 2^32.
pub open spec fn prefix_bytes(size: nat) -> Seq<u8> {
    seq![
        ((size / 0x1000000) % 256) as u8,
        ((size / 0x10000) % 256) as u8,
        ((size / 0x100) % 256) as u8,
        (size % 256) as u8,
    ]
}

/// The number that four big-endian bytes spell.
pub open spec fn prefix_value(bytes: Seq<u8>) -> nat {
    (bytes[0] as nat) * 0x1000000 + (bytes[1] as nat) * 0x10000 + (bytes[2] as nat) * 0x100
        + (bytes[3] as nat)
}

/// The bytes a size prefix is made of spell the size again.
pub proof fn lemma_prefix_round_trip(size: nat)
    requires
        size < 0x1_0000_0000,
    ensures
        prefix_value(prefix_bytes(size)) == size,
{
    let b = prefix_bytes(size);
    assert(b[0] as nat == (size / 0x1000000) % 256);
    assert(b[1] as nat == (size / 0x10000) % 256);
    assert(b[2] as nat == (size / 0x100) % 256);
    assert(b[3] as nat == size % 256);
    assert(prefix_value(b) == size) by (nonlinear_arith)
        requires
            size < 0x1_0000_0000,
            b[0] as nat == (size / 0x1000000) % 256,
            b[1] as nat == (size / 0x10000) % 256,
            b[2] as nat == (size / 0x100) % 256,
            b[3] as nat == size % 256,
            prefix_value(b) == (b[0] as nat) * 0x1000000 + (b[1] as nat) * 0x10000 + (
            b[2] as nat) * 0x100 + (b[3] as nat),
    ;
}

/// A frame: the payload's size in four big-endian bytes, then the payload. A payload above the
/// largest frame size is refused.
pub fn encode_frame(payload: &[u8]) -> (frame: Result<Vec<u8>, ProtocolError>)
    ensures
        payload@.len() <= MAX_FRAME_BYTES ==> (frame matches Ok(bytes) && bytes@ == prefix_bytes(
            payload@.len(),
        ) + payload@),
        payload@.len() > MAX_FRAME_BYTES ==> frame == Err::<Vec<u8>, ProtocolError>(
            ProtocolError::OversizedFrame { declared: payload@.len() as usize, maximum: MAX_FRAME_BYTES },
        ),
{
    let size = payload.len();
    match ensure_frame_size(size) {
        Err(error) => {
            return Err(error);
        },
        Ok(()) => {},
    }
    let mut bytes: Vec<u8> = Vec::new();
    bytes.push(((size / 0x1000000) % 256) as u8);
    bytes.push(((size / 0x10000) % 256) as u8);
    bytes.push(((size / 0x100) % 256) as u8);
    bytes.push((size % 256) as u8);
    assert(bytes@ =~= prefix_bytes(size as nat));
    let mut index: usize = 0;
    while index < payload.len()
        invariant
            index <= payload@.len(),
            size == payload@.len(),
            bytes@ == prefix_bytes(size as nat) + payload@.subrange(0, index as int),
        decreases payload@.len() - index,
    {
        bytes.push(payload[index]);
        index = index + 1;
        assert(bytes@ =~= prefix_bytes(size as nat) + payload@.subrange(0, index as int));
    }
    assert(payload@.subrange(0, index as int) =~= payload@);
    Ok(bytes)
}

/// The payload size that a frame's four prefix bytes declare; a size above the largest frame
/// size is refused before any payload is read.
pub fn declared_size(prefix: [u8; 4]) -> (size: Result<usize, ProtocolError>)
    ensures
        prefix_value(prefix@) <= MAX_FRAME_BYTES ==> size == Ok::<usize, ProtocolError>(
            prefix_value(prefix@) as usize,
        ),
        prefix_value(prefix@) > MAX_FRAME_BYTES ==> (size matches Err(
            ProtocolError::OversizedFrame { declared, maximum },
        ) && declared == prefix_value(prefix@) && maximum == MAX_FRAME_BYTES),
{
    let value: u64 = (prefix[0] as u64) * 0x1000000 + (prefix[1] as u64) * 0x10000 + (
    prefix[2] as u64) * 0x100 + (prefix[3] as u64);
    assert(value == prefix_value(prefix@));
    if value > MAX_FRAME_BYTES as u64 {
        assert(value < 0x1_0000_0000);
        proof {
            assert(usize::MAX >= 0xffff_ffff);
        }
        return Err(ProtocolError::OversizedFrame { declared: value as usize, maximum: MAX_FRAME_BYTES });
    }
    Ok(value as usize)
}

/// The size of a payload a frame declares is the size it was made with.
pub proof fn lemma_frame_declares_payload_size(payload: Seq<u8>)
    requires
        payload.len() <= MAX_FRAME_BYTES,
    ensures
        prefix_value((prefix_bytes(payload.len()) + payload).take(4)) == payload.len(),
{
    assert((prefix_bytes(payload.len()) + payload).take(4) =~= prefix_bytes(payload.len()));
    lemma_prefix_round_trip(payload.len());
}

/// A wire path as the native path of a platform: the platform's own encoding without a null
/// unit. A path in the other platform's encoding, or with a null unit, is refused.
pub open spec fn native_path_check(path: WirePath, platform: PathPlatform) -> Result<(), ProtocolError> {
    match (path, platform) {
        (WirePath::Unix(bytes), PathPlatform::Unix) => if bytes@.contains(0u8) {
            Err(ProtocolError::InvalidNativePath)
        } else {
            Ok(())
        },
        (WirePath::Windows(units), PathPlatform::Windows) => if units@.contains(0u16) {
            Err(ProtocolError::InvalidNativePath)
        } else {
            Ok(())
        },
        (WirePath::Windows(_), PathPlatform::Unix) => Err(
            ProtocolError::WrongPathEncoding { received: "Windows", expected: "Unix" },
        ),
        (WirePath::Unix(_), PathPlatform::Windows) => Err(
            ProtocolError::WrongPathEncoding { received: "Unix", expected: "Windows" },
        ),
    }
}

impl WirePath {
    /// The path in the encoding of a platform, checked as the platform reads it: the path is
    /// handed back where it is in the platform's own encoding without a null unit.
    pub fn into_path(self, platform: PathPlatform) -> (native: Result<WirePath, ProtocolError>)
        ensures
            native_path_check(self, platform) is Ok ==> (native matches Ok(p) && p == self),
            native_path_check(self, platform) matches Err(e) ==> native == Err::<WirePath, ProtocolError>(e),
    {
        match platform {
            PathPlatform::Unix => match self {
                WirePath::Unix(bytes) => {
                    if contains_zero_byte(&bytes) {
                        Err(ProtocolError::InvalidNativePath)
                    } else {
                        Ok(WirePath::Unix(bytes))
                    }
                },
                WirePath::Windows(_) => Err(
                    ProtocolError::WrongPathEncoding { received: "Windows", expected: "Unix" },
                ),
            },
            PathPlatform::Windows => match self {
                WirePath::Windows(units) => {
                    if contains_zero_unit(&units) {
                        Err(ProtocolError::InvalidNativePath)
                    } else {
                        Ok(WirePath::Windows(units))
                    }
                },
                WirePath::Unix(_) => Err(
                    ProtocolError::WrongPathEncoding { received: "Unix", expected: "Windows" },
                ),
            },
        }
    }
}

/// Whether bytes hold a zero.
fn contains_zero_byte(bytes: &Vec<u8>) -> (found: bool)
    ensures
        found == bytes@.contains(0u8),
{
    let mut index: usize = 0;
    while index < bytes.len()
        invariant
            index <= bytes@.len(),
            forall|i: int| 0 <= i < index ==> bytes@[i] != 0u8,
        decreases bytes@.len() - index,
    {
        if bytes[index] == 0 {
            assert(bytes@[index as int] == 0u8);
            return true;
        }
        index = index + 1;
    }
    false
}

/// Whether units hold a zero.
fn contains_zero_unit(units: &Vec<u16>) -> (found: bool)
    ensures
        found == units@.contains(0u16),
{
    let mut index: usize = 0;
    while index < units.len()
        invariant
            index <= units@.len(),
            forall|i: int| 0 <= i < index ==> units@[i] != 0u16,
        decreases units@.len() - index,
    {
        if units[index] == 0 {
            assert(units@[index as int] == 0u16);
            return true;
        }
        index = index + 1;
    }
    false
}

} // verus!
