use vstd::prelude::*;

use crate::service::endpoint::{absent, busy, endpoint_error_text, EndpointError};
use crate::service::process::{process_error_text, ProcessError};
use crate::service::protocol::{
    protocol_error_text, OpenErrorCode, ProtocolError, RequestId, ServiceResponse,
};

verus! {

/// What a command achieved: the view opened in the browser, or a view whose address the user
/// must open because the browser could not be started.
#[derive(Debug, PartialEq, Eq)]
pub enum ClientOutcome {
    Opened { view_url: String },
    ManualUrl { view_url: String, error: String },
}

/// Why a command could not open a view.
#[derive(Debug)]
pub enum ClientError {
    CurrentDirectory(String),
    RequestIdentifier(String),
    Endpoint(EndpointError),
    Process(ProcessError),
    Protocol(ProtocolError),
    StartupTimeout,
    AcknowledgmentTimeout,
    MismatchedResponse,
    IncompatibleService,
    Rejected { code: OpenErrorCode, message: String },
}

/// The sentence that describes a client error.
pub open spec fn client_error_text(error: ClientError) -> Seq<char> {
    match error {
        ClientError::CurrentDirectory(reason) => "Could not identify the current directory: "@
            + reason@,
        ClientError::RequestIdentifier(reason) => "Could not create a request identifier: "@
            + reason@,
        ClientError::Endpoint(e) => endpoint_error_text(e),
        ClientError::Process(e) => process_error_text(e),
        ClientError::Protocol(e) => protocol_error_text(e),
        ClientError::StartupTimeout => "Lens background service did not start within three seconds"@,
        ClientError::AcknowledgmentTimeout => "Lens background service did not acknowledge the request within ten seconds"@,
        ClientError::MismatchedResponse => "Lens background service returned a response for a different request"@,
        ClientError::IncompatibleService => "Lens background service uses an incompatible command protocol"@,
        ClientError::Rejected { message, .. } => message@,
    }
}

impl ClientError {
    /// The sentence that describes this error.
    pub fn message(&self) -> (text: String)
        ensures
            text@ == client_error_text(*self),
    {
        match self {
            ClientError::CurrentDirectory(reason) => {
                let mut text = "Could not identify the current directory: ".to_owned();
                text.append(reason.as_str());
                text
            },
            ClientError::RequestIdentifier(reason) => {
                let mut text = "Could not create a request identifier: ".to_owned();
                text.append(reason.as_str());
                text
            },
            ClientError::Endpoint(e) => e.message(),
            ClientError::Process(e) => e.message(),
            ClientError::Protocol(e) => e.message(),
            ClientError::StartupTimeout => "Lens background service did not start within three seconds".to_owned(),
            ClientError::AcknowledgmentTimeout => "Lens background service did not acknowledge the request within ten seconds".to_owned(),
            ClientError::MismatchedResponse => "Lens background service returned a response for a different request".to_owned(),
            ClientError::IncompatibleService => "Lens background service uses an incompatible command protocol".to_owned(),
            ClientError::Rejected { message, .. } => message.clone(),
        }
    }
}

/// Sixteen bytes from the system's source of randomness, from `getrandom::getrandom`, or the
/// text of its error. The bytes are chance: nothing is stated of them.
#[verifier::external_body]
fn random_bytes(bytes: &mut [u8; 16]) -> (filled: Result<(), String>) {
    match getrandom::getrandom(bytes) {
        Ok(()) => Ok(()),
        Err(error) => Err(error.to_string()),
    }
}

/// The request identifier made of bytes that the source of randomness filled, or, where it
/// failed, the error that reports its text.
pub fn request_id_from(filled: Result<(), String>, bytes: [u8; 16]) -> (id: Result<RequestId, ClientError>)
    ensures
        match filled {
            Ok(()) => id matches Ok(r) && r.0 == bytes,
            Err(reason) => id matches Err(ClientError::RequestIdentifier(text)) && text@ == reason@,
        },
{
    match filled {
        Ok(()) => Ok(RequestId::from_bytes(bytes)),
        Err(reason) => Err(ClientError::RequestIdentifier(reason)),
    }
}

/// A fresh request identifier of random bytes; a failure of the source of randomness is
/// reported with its text. Which bytes come, and whether the source fails, is chance:
/// `request_id_from` states what is made of each outcome.
pub fn new_request_id() -> (id: Result<RequestId, ClientError>)
    ensures
        id is Err ==> id matches Err(ClientError::RequestIdentifier(_)),
{
    let mut bytes = [0u8; 16];
    let filled = random_bytes(&mut bytes);
    request_id_from(filled, bytes)
}

/// Accepts a response that names the request it answers and refuses any other.
pub fn verify_request_id(expected: &RequestId, received: &RequestId) -> (checked: Result<(), ClientError>)
    ensures
        expected.0@ == received.0@ ==> checked is Ok,
        expected.0@ != received.0@ ==> checked matches Err(ClientError::MismatchedResponse),
{
    if expected.same_as(received) {
        Ok(())
    } else {
        Err(ClientError::MismatchedResponse)
    }
}

/// What an answer to an open request means: a ready view's address, or the refusal it states.
/// An answer for another request, or one that is not an answer to an open request, is refused.
pub open spec fn response_outcome(request_id: RequestId, response: ServiceResponse) -> Result<
    Seq<char>,
    ClientError,
> {
    match response {
        ServiceResponse::Ready { request_id: answered, view_url } => if answered.0@
            == request_id.0@ {
            Ok(view_url@)
        } else {
            Err(ClientError::MismatchedResponse)
        },
        ServiceResponse::Rejected { request_id: answered, error } => if answered.0@
            == request_id.0@ {
            Err(ClientError::Rejected { code: error.code, message: error.message })
        } else {
            Err(ClientError::MismatchedResponse)
        },
        ServiceResponse::Incompatible { .. } => Err(ClientError::IncompatibleService),
        ServiceResponse::Stopped => Err(ClientError::MismatchedResponse),
    }
}

/// The address of the view an open request was answered with, or why there is none.
pub fn ready_view_url(request_id: &RequestId, response: ServiceResponse) -> (view_url: Result<String, ClientError>)
    ensures
        match (view_url, response_outcome(*request_id, response)) {
            (Ok(url), Ok(text)) => url@ == text,
            (Err(a), Err(b)) => a == b,
            _ => false,
        },
{
    match response {
        ServiceResponse::Ready { request_id: answered, view_url } => {
            match verify_request_id(request_id, &answered) {
                Ok(()) => Ok(view_url),
                Err(error) => Err(error),
            }
        },
        ServiceResponse::Rejected { request_id: answered, error } => {
            match verify_request_id(request_id, &answered) {
                Ok(()) => Err(ClientError::Rejected { code: error.code, message: error.message }),
                Err(error) => Err(error),
            }
        },
        ServiceResponse::Incompatible { .. } => Err(ClientError::IncompatibleService),
        ServiceResponse::Stopped => Err(ClientError::MismatchedResponse),
    }
}

/// What a command reports once its view is ready: the view opened, or, where the browser could
/// not be started, the address to open by hand with the reason.
pub fn browser_outcome(view_url: String, browser_error: Option<String>) -> (outcome: ClientOutcome)
    ensures
        browser_error is None ==> outcome == (ClientOutcome::Opened { view_url }),
        browser_error matches Some(error) ==> outcome == (ClientOutcome::ManualUrl { view_url, error }),
{
    match browser_error {
        None => ClientOutcome::Opened { view_url },
        Some(error) => ClientOutcome::ManualUrl { view_url, error },
    }
}

/// Whether an exchange that failed is tried once more on a new connection: only a failure of
/// the transfer itself is.
pub fn retries_exchange(error: &ProtocolError) -> (retry: bool)
    ensures
        retry == (error is Io),
{
    match error {
        ProtocolError::Io(_) => true,
        _ => false,
    }
}

/// What follows a failed first connection: a service that is absent or busy is started, and
/// any other failure is reported.
pub fn after_first_connect_failure(error: EndpointError) -> (next: Result<(), ClientError>)
    ensures
        (absent(error) || busy(error)) ==> next is Ok,
        !(absent(error) || busy(error)) ==> next == Err::<(), ClientError>(ClientError::Endpoint(error)),
{
    if error.is_unavailable() {
        Ok(())
    } else {
        Err(ClientError::Endpoint(error))
    }
}

/// What follows a failed connection once the service was started: an unavailable service is
/// tried again until the startup deadline, then reported as not started; any other failure is
/// reported.
pub fn after_retry_connect_failure(error: EndpointError, before_deadline: bool) -> (next: Result<(), ClientError>)
    ensures
        (absent(error) || busy(error)) && before_deadline ==> next is Ok,
        (absent(error) || busy(error)) && !before_deadline ==> next matches Err(ClientError::StartupTimeout),
        !(absent(error) || busy(error)) ==> next == Err::<(), ClientError>(ClientError::Endpoint(error)),
{
    if error.is_unavailable() {
        if before_deadline {
            Ok(())
        } else {
            Err(ClientError::StartupTimeout)
        }
    } else {
        Err(ClientError::Endpoint(error))
    }
}

} // verus!
