use vstd::prelude::*;

use crate::service::endpoint::EndpointError;
use crate::service::protocol::{
    OpenRequest, ProtocolVersion, ServiceRequest, ServiceResponse, CURRENT_PROTOCOL_VERSION,
};

verus! {

/// What a connection's request leads to: an answer at once, or a request for the controller.
#[derive(Debug)]
pub enum Dispatch {
    Respond(ServiceResponse),
    Open(OpenRequest),
    Stop,
}

/// What a connection's request leads to: a request of another protocol version is answered as
/// incompatible, with the version this service speaks; any other goes to the controller.
pub fn dispatch(request: ServiceRequest) -> (next: Dispatch)
    ensures
        request.version_of().0 != CURRENT_PROTOCOL_VERSION ==> next == Dispatch::Respond(
            ServiceResponse::Incompatible {
                supported_version: ProtocolVersion(CURRENT_PROTOCOL_VERSION),
            },
        ),
        request.version_of().0 == CURRENT_PROTOCOL_VERSION ==> match request {
            ServiceRequest::Open(open) => next == Dispatch::Open(open),
            ServiceRequest::Stop(_) => next is Stop,
        },
{
    if request.validate_version().is_err() {
        return Dispatch::Respond(
            ServiceResponse::Incompatible { supported_version: ProtocolVersion::current() },
        );
    }
    match request {
        ServiceRequest::Open(open) => Dispatch::Open(open),
        ServiceRequest::Stop(_) => Dispatch::Stop,
    }
}

/// Whether the service runs after trying to claim its endpoint: it runs once it owns it; when
/// another service owns it, there is nothing to do; any other failure is reported.
pub fn after_claim(claimed: Result<(), EndpointError>) -> (serve: Result<bool, EndpointError>)
    ensures
        claimed is Ok ==> serve == Ok::<bool, EndpointError>(true),
        claimed matches Err(EndpointError::AlreadyOwned) ==> serve == Ok::<bool, EndpointError>(
            false,
        ),
        (claimed matches Err(e) && !(e is AlreadyOwned)) ==> serve == Err::<bool, EndpointError>(
            claimed->Err_0,
        ),
{
    match claimed {
        Ok(()) => Ok(true),
        Err(EndpointError::AlreadyOwned) => Ok(false),
        Err(error) => Err(error),
    }
}

/// The stages of a running service: it serves commands until a stop is accepted, keeps
/// accepting while sessions shut down, then closes its endpoint.
#[derive(Clone, Copy, Debug, PartialEq, Eq, Structural)]
pub enum ServiceStage {
    Serving,
    Draining,
    Closing,
}

/// What the service waits for.
#[derive(Clone, Copy, Debug, PartialEq, Eq, Structural)]
pub enum ServiceSignal {
    StopRequested,
    CleanupComplete,
    Accepted,
}

/// The stage after a signal: a stop request ends serving, a complete cleanup ends draining, and
/// an accepted connection changes nothing.
pub open spec fn next_stage_spec(stage: ServiceStage, signal: ServiceSignal) -> ServiceStage {
    match (stage, signal) {
        (ServiceStage::Serving, ServiceSignal::StopRequested) => ServiceStage::Draining,
        (ServiceStage::Draining, ServiceSignal::CleanupComplete) => ServiceStage::Closing,
        _ => stage,
    }
}

/// The stage after a signal.
pub fn next_stage(stage: ServiceStage, signal: ServiceSignal) -> (next: ServiceStage)
    ensures
        next == next_stage_spec(stage, signal),
{
    match (stage, signal) {
        (ServiceStage::Serving, ServiceSignal::StopRequested) => ServiceStage::Draining,
        (ServiceStage::Draining, ServiceSignal::CleanupComplete) => ServiceStage::Closing,
        _ => stage,
    }
}

/// The identifiers handed to accepted connections, in turn, wrapping around at the end.
pub struct ConnectionIds {
    next: u64,
}

impl ConnectionIds {
    /// The identifier the next connection gets.
    pub closed spec fn upcoming(&self) -> u64 {
        self.next
    }

    /// Identifiers from zero.
    pub fn new() -> (ids: Self)
        ensures
            ids.upcoming() == 0,
    {
        ConnectionIds { next: 0 }
    }

    /// Hands out the next identifier.
    pub fn allocate(&mut self) -> (id: u64)
        ensures
            id == old(self).upcoming(),
            final(self).upcoming() == if id == u64::MAX {
                0
            } else {
                (id + 1) as u64
            },
    {
        let id = self.next;
        self.next = if id == u64::MAX {
            0
        } else {
            id + 1
        };
        id
    }
}

/// The identifiers of the connections whose flag has a given value, in order.
pub fn ids_with_flag(connections: &[(u64, bool)], flag: bool) -> (ids: Vec<u64>)
    ensures
        ids@ == connections@.filter(|c: (u64, bool)| c.1 == flag).map_values(|c: (u64, bool)| c.0),
{
    let ghost wanted = |c: (u64, bool)| c.1 == flag;
    let ghost pick = |c: (u64, bool)| c.0;
    let mut ids: Vec<u64> = Vec::new();
    let mut index: usize = 0;
    while index < connections.len()
        invariant
            index <= connections@.len(),
            wanted == (|c: (u64, bool)| c.1 == flag),
            pick == (|c: (u64, bool)| c.0),
            ids@ == connections@.subrange(0, index as int).filter(wanted).map_values(pick),
        decreases connections@.len() - index,
    {
        let (id, flagged) = connections[index];
        proof {
            let before = connections@.subrange(0, index as int);
            let after = connections@.subrange(0, index + 1);
            assert(after.drop_last() =~= before);
            assert(after.last() == connections@[index as int]);
            before.lemma_filter_push(connections@[index as int], wanted);
            assert(after =~= before.push(connections@[index as int]));
        }
        if flagged == flag {
            ids.push(id);
        }
        index = index + 1;
        proof {
            assert(ids@ =~= connections@.subrange(0, index as int).filter(wanted).map_values(pick));
        }
    }
    assert(connections@.subrange(0, index as int) =~= connections@);
    ids
}

} // verus!
