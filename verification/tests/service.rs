use std::io;

use lens::service::client::{
    after_first_connect_failure, after_retry_connect_failure, browser_outcome, new_request_id,
    ready_view_url, request_id_from,
    retries_exchange, verify_request_id, ClientError, ClientOutcome,
};
use lens::service::controller::{ControllerEvent, ServiceController, Completion};
use lens::service::endpoint::{
    authorize_user, bind_failure, check_runtime_directory, check_stale_candidate, check_unchanged,
    lock_failure, owns_endpoint, removal_failure, runtime_directory_for, EndpointError,
    EntryFacts, IoFailureKind,
};
use lens::service::ledger::ControllerAction;
use lens::service::process::{windows_working_directory, ProcessError};
use lens::service::protocol::{
    declared_size, encode_frame, ensure_frame_size, OpenError, OpenErrorCode, OpenRequest,
    PathPlatform, ProtocolError, ProtocolVersion, RequestId, ServiceRequest, ServiceResponse,
    StopRequest, WirePath, MAX_FRAME_BYTES,
};
use lens::service::server::{
    after_claim, dispatch, ids_with_flag, next_stage, ConnectionIds, Dispatch, ServiceSignal,
    ServiceStage,
};
use lens::target::TargetScope;

#[test]
fn not_found_io_error_then_is_absent_and_unavailable() {
    // Arrange
    let error = EndpointError::io("test", io::Error::new(io::ErrorKind::NotFound, "not found"));

    // Act & Assert
    assert!(error.is_absent());
    assert!(!error.is_busy());
    assert!(error.is_unavailable());
}

#[test]
fn connection_refused_io_error_then_is_absent_and_unavailable() {
    // Arrange
    let error = EndpointError::io(
        "test",
        io::Error::new(io::ErrorKind::ConnectionRefused, "refused"),
    );

    // Act & Assert
    assert!(error.is_absent());
    assert!(!error.is_busy());
    assert!(error.is_unavailable());
}

#[test]
fn pipe_busy_raw_os_error_then_is_busy_and_unavailable_but_not_absent() {
    // Arrange
    let error = EndpointError::io("test", io::Error::from_raw_os_error(231));

    // Act & Assert
    assert!(!error.is_absent());
    assert!(error.is_busy());
    assert!(error.is_unavailable());
}

#[test]
fn would_block_io_error_then_is_busy_and_unavailable_but_not_absent() {
    // Arrange
    let error = EndpointError::io(
        "test",
        io::Error::new(io::ErrorKind::WouldBlock, "would block"),
    );

    // Act & Assert
    assert!(!error.is_absent());
    assert!(error.is_busy());
    assert!(error.is_unavailable());
}

#[test]
fn other_io_error_then_is_neither_absent_nor_busy() {
    // Arrange
    let error = EndpointError::io(
        "test",
        io::Error::new(io::ErrorKind::PermissionDenied, "denied"),
    );

    // Act & Assert
    assert!(!error.is_absent());
    assert!(!error.is_busy());
    assert!(!error.is_unavailable());
}

#[test]
fn different_user_peer_then_authorization_is_rejected() {
    let result = authorize_user(1001, 1000);
    assert!(matches!(
        result,
        Err(EndpointError::UnauthorizedPeer { peer: 1001, owner: 1000 })
    ));
    assert!(authorize_user(1000, 1000).is_ok());
}

#[test]
fn endpoint_error_messages_name_their_cause() {
    let io_error = EndpointError::io("Could not connect", io::Error::new(io::ErrorKind::Other, "boom"));
    assert_eq!(io_error.message(), "Could not connect: boom");
    assert_eq!(
        EndpointError::UnauthorizedPeer { peer: 7, owner: 8 }.message(),
        "endpoint peer user 7 does not match owner user 8"
    );
    assert_eq!(
        EndpointError::AlreadyOwned.message(),
        "another Lens background service owns the current user's endpoint"
    );
}

#[test]
fn runtime_directory_then_prefers_xdg_and_falls_back_to_user_directory() {
    assert_eq!(runtime_directory_for(Some("/run/user/1000"), "/tmp", 1000), "/run/user/1000/lens");
    assert_eq!(runtime_directory_for(None, "/tmp", 1000), "/tmp/lens-runtime-1000");
    assert_eq!(runtime_directory_for(None, "/tmp/", 7), "/tmp/lens-runtime-7");
}

fn facts(is_dir: bool, is_socket: bool, uid: u32, mode: u32) -> EntryFacts {
    EntryFacts { is_dir, is_socket, uid, mode, device: 1, inode: 2 }
}

#[test]
fn group_accessible_runtime_directory_then_is_refused_with_octal_permissions() {
    let result = check_runtime_directory("/tmp/lens", &facts(true, false, 1000, 0o40770), 1000);
    match result {
        Err(EndpointError::UnsafeRuntimeDirectory { path, reason }) => {
            assert_eq!(path, "/tmp/lens");
            assert_eq!(reason, "permissions 770 allow group or other access");
        }
        other => panic!("expected an unsafe directory, got {other:?}"),
    }
    assert!(check_runtime_directory("/tmp/lens", &facts(true, false, 1000, 0o40700), 1000).is_ok());
    assert!(matches!(
        check_runtime_directory("/tmp/lens", &facts(false, false, 1000, 0o700), 1000),
        Err(EndpointError::UnsafeRuntimeDirectory { .. })
    ));
    match check_runtime_directory("/tmp/lens", &facts(true, false, 0, 0o700), 1000) {
        Err(EndpointError::UnsafeRuntimeDirectory { reason, .. }) => {
            assert_eq!(reason, "owner user 0 does not match current user 1000")
        }
        other => panic!("expected an unsafe directory, got {other:?}"),
    }
}

#[test]
fn stale_socket_checks_then_refuse_owned_foreign_and_changed_endpoints() {
    let socket = facts(false, true, 1000, 0o600);
    assert!(matches!(
        check_stale_candidate("/run/lens.sock", &socket, true, 1000),
        Err(EndpointError::AlreadyOwned)
    ));
    assert!(check_stale_candidate("/run/lens.sock", &socket, false, 1000).is_ok());
    match check_stale_candidate("/run/lens.sock", &facts(false, false, 1000, 0o600), false, 1000) {
        Err(EndpointError::UnsafeEndpoint { reason, .. }) => {
            assert_eq!(reason, "the existing path is not a Unix socket")
        }
        other => panic!("expected an unsafe endpoint, got {other:?}"),
    }
    let moved = EntryFacts { inode: 3, ..socket };
    assert!(check_unchanged("/run/lens.sock", &socket, &socket, 1000).is_ok());
    assert!(matches!(
        check_unchanged("/run/lens.sock", &socket, &moved, 1000),
        Err(EndpointError::UnsafeEndpoint { .. })
    ));
    assert!(owns_endpoint(&socket, 1000, 1, 2));
    assert!(!owns_endpoint(&moved, 1000, 1, 2));
}

#[test]
fn endpoint_failures_then_map_contention_to_already_owned() {
    let in_use = EndpointError::io("bind", io::Error::new(io::ErrorKind::AddrInUse, "in use"));
    assert!(matches!(bind_failure(in_use), EndpointError::AlreadyOwned));
    let gone = EndpointError::io("remove", io::Error::new(io::ErrorKind::NotFound, "gone"));
    assert!(matches!(removal_failure(gone), EndpointError::AlreadyOwned));
    let denied = EndpointError::io("remove", io::Error::new(io::ErrorKind::PermissionDenied, "no"));
    assert!(matches!(removal_failure(denied), EndpointError::Io { kind: IoFailureKind::Other, .. }));
    let blocked = EndpointError::io("lock", io::Error::from_raw_os_error(11));
    assert!(matches!(lock_failure(blocked, 11, 11), EndpointError::AlreadyOwned));
}

fn request_id(marker: u8) -> RequestId {
    RequestId::from_bytes([marker; 16])
}

fn open_request(version: u16) -> ServiceRequest {
    ServiceRequest::Open(OpenRequest {
        protocol_version: ProtocolVersion(version),
        request_id: request_id(4),
        invocation_directory: WirePath::Unix(b"/tmp".to_vec()),
        target: None,
        scope: TargetScope::Repository,
        plantuml_server: None,
    })
}

#[test]
fn incompatible_request_version_then_reports_supported_version() {
    // Arrange
    let request = open_request(99);

    // Act
    let result = request.validate_version();

    // Assert
    assert!(matches!(
        result,
        Err(ProtocolError::IncompatibleVersion {
            received: ProtocolVersion(99),
            supported: ProtocolVersion(1)
        })
    ));
    assert!(open_request(1).validate_version().is_ok());
}

#[test]
fn wrong_platform_path_then_rejects_before_target_resolution() {
    // Arrange
    let path = WirePath::Windows(vec![b'C' as u16, b':' as u16]);

    // Act
    let result = path.into_path(PathPlatform::Unix);

    // Assert
    assert!(matches!(result, Err(ProtocolError::WrongPathEncoding { .. })));
}

#[test]
fn native_path_with_null_unit_then_rejects_before_target_resolution() {
    // Arrange
    let path = WirePath::Unix(b"/tmp/lens\0guide.md".to_vec());

    // Act
    let result = path.into_path(PathPlatform::Unix);

    // Assert
    assert!(matches!(result, Err(ProtocolError::InvalidNativePath)));
}

#[test]
fn native_path_of_the_platform_then_is_kept() {
    let path = WirePath::Unix(b"/tmp/lens-\xff".to_vec());
    match path.into_path(PathPlatform::Unix) {
        Ok(WirePath::Unix(bytes)) => assert_eq!(bytes, b"/tmp/lens-\xff".to_vec()),
        other => panic!("expected the Unix path, got {other:?}"),
    }
}

#[test]
fn oversized_frame_then_rejects_declared_size_before_payload_read() {
    let declared = (MAX_FRAME_BYTES + 1) as u32;
    let result = declared_size(declared.to_be_bytes());
    assert!(matches!(
        result,
        Err(ProtocolError::OversizedFrame { declared, maximum: MAX_FRAME_BYTES })
            if declared == MAX_FRAME_BYTES + 1
    ));
    assert!(ensure_frame_size(MAX_FRAME_BYTES).is_ok());
}

#[test]
fn encoded_frame_then_declares_its_payload_size() {
    let payload = b"{\"type\":\"stop\"}".to_vec();
    let frame = encode_frame(&payload).expect("a small payload should frame");
    assert_eq!(&frame[..4], &(payload.len() as u32).to_be_bytes());
    assert_eq!(&frame[4..], payload.as_slice());
    let prefix = [frame[0], frame[1], frame[2], frame[3]];
    assert_eq!(declared_size(prefix).expect("size should be accepted"), payload.len());
    let too_large = vec![0u8; MAX_FRAME_BYTES + 1];
    assert!(matches!(encode_frame(&too_large), Err(ProtocolError::OversizedFrame { .. })));
}

#[test]
fn protocol_error_messages_name_their_cause() {
    assert_eq!(
        ProtocolError::OversizedFrame { declared: 70000, maximum: 65536 }.message(),
        "protocol frame declares 70000 bytes; maximum is 65536"
    );
    assert_eq!(
        ProtocolError::IncompatibleVersion {
            received: ProtocolVersion(99),
            supported: ProtocolVersion(1)
        }
        .message(),
        "protocol version ProtocolVersion(99) is incompatible; supported version is ProtocolVersion(1)"
    );
}

fn ready(marker: u8) -> ServiceResponse {
    ServiceResponse::Ready {
        request_id: request_id(marker),
        view_url: "http://127.0.0.1:1".to_owned(),
    }
}

fn replies_to(actions: &[ControllerAction], waiter: u64) -> Vec<&ServiceResponse> {
    actions
        .iter()
        .filter_map(|action| match action {
            ControllerAction::Reply { waiter: w, response } if *w == waiter => Some(response),
            _ => None,
        })
        .collect()
}

fn is_stopping(response: &ServiceResponse) -> bool {
    matches!(
        response,
        ServiceResponse::Rejected {
            error: OpenError { code: OpenErrorCode::ServiceStopping, .. },
            ..
        }
    )
}

#[test]
fn same_request_retried_then_one_creation_answers_both_waiters() {
    let mut controller = ServiceController::new();
    let first = controller.step(ControllerEvent::Open { request_id: request_id(1), waiter: 10 });
    let second = controller.step(ControllerEvent::Open { request_id: request_id(1), waiter: 11 });
    assert!(matches!(first.as_slice(), [ControllerAction::SpawnCreation]));
    assert!(second.is_empty());
    let done = controller.step(ControllerEvent::CreationJoined {
        completion: Some(Completion { request_id: request_id(1), response: ready(1), session: Some(5) }),
    });
    assert_eq!(replies_to(&done, 10).len(), 1);
    assert_eq!(replies_to(&done, 11).len(), 1);
    let retried = controller.step(ControllerEvent::Open { request_id: request_id(1), waiter: 12 });
    assert!(matches!(
        retried.as_slice(),
        [ControllerAction::Reply { waiter: 12, response: ServiceResponse::Ready { .. } }]
    ));
}

#[test]
fn unfinished_open_at_stop_then_is_rejected_and_stop_waits_for_endpoint_removal() {
    let mut controller = ServiceController::new();
    controller.step(ControllerEvent::Open { request_id: request_id(3), waiter: 1 });
    let stop = controller.step(ControllerEvent::Stop { waiter: 2 });
    assert!(is_stopping(replies_to(&stop, 1)[0]));
    assert!(stop.iter().any(|a| matches!(a, ControllerAction::SignalStopRequested)));
    let late = controller.step(ControllerEvent::Open { request_id: request_id(4), waiter: 3 });
    assert!(is_stopping(replies_to(&late, 3)[0]));
    let joined = controller.step(ControllerEvent::CreationJoined { completion: None });
    assert!(joined.iter().any(|a| matches!(a, ControllerAction::SignalCleanupComplete)));
    assert!(replies_to(&joined, 2).is_empty());
    assert!(!controller.is_stopped());
    let removed = controller.step(ControllerEvent::EndpointRemoved);
    assert!(matches!(replies_to(&removed, 2).as_slice(), [ServiceResponse::Stopped]));
    assert!(controller.is_stopped());
    let repeated = controller.step(ControllerEvent::Stop { waiter: 9 });
    assert!(matches!(
        repeated.as_slice(),
        [ControllerAction::Reply { waiter: 9, response: ServiceResponse::Stopped }]
    ));
}

#[test]
fn ready_sessions_at_stop_then_are_shut_down_with_force_after_deadline() {
    let mut controller = ServiceController::new();
    controller.step(ControllerEvent::Open { request_id: request_id(7), waiter: 1 });
    controller.step(ControllerEvent::CreationJoined {
        completion: Some(Completion { request_id: request_id(7), response: ready(7), session: Some(42) }),
    });
    let stop = controller.step(ControllerEvent::Stop { waiter: 2 });
    assert!(stop
        .iter()
        .any(|a| matches!(a, ControllerAction::ShutDownSession { session: 42, force: false })));
    let forced = controller.step(ControllerEvent::ForceShutdown);
    assert!(forced.iter().any(|a| matches!(a, ControllerAction::SignalForce)));
    let cleaned = controller.step(ControllerEvent::CleanupJoined);
    assert!(cleaned.iter().any(|a| matches!(a, ControllerAction::SignalCleanupComplete)));
    let removed = controller.step(ControllerEvent::EndpointRemoved);
    assert!(removed.iter().any(|a| matches!(a, ControllerAction::SignalStopped)));
}

#[test]
fn responses_then_map_to_client_outcomes() {
    let id = request_id(2);
    assert_eq!(ready_view_url(&id, ready(2)).expect("ready view"), "http://127.0.0.1:1");
    assert!(matches!(ready_view_url(&id, ready(3)), Err(ClientError::MismatchedResponse)));
    let rejected = ServiceResponse::Rejected {
        request_id: id,
        error: OpenError { code: OpenErrorCode::Target, message: "Target guide.md does not exist".to_owned() },
    };
    match ready_view_url(&id, rejected) {
        Err(ClientError::Rejected { code: OpenErrorCode::Target, message }) => {
            assert_eq!(message, "Target guide.md does not exist")
        }
        other => panic!("expected a rejection, got {other:?}"),
    }
    assert!(matches!(
        ready_view_url(&id, ServiceResponse::Incompatible { supported_version: ProtocolVersion(1) }),
        Err(ClientError::IncompatibleService)
    ));
    assert!(verify_request_id(&id, &request_id(2)).is_ok());
}

#[test]
fn browser_failure_then_reports_manual_url() {
    assert_eq!(
        browser_outcome("http://x".to_owned(), None),
        ClientOutcome::Opened { view_url: "http://x".to_owned() }
    );
    assert_eq!(
        browser_outcome("http://x".to_owned(), Some("controlled browser failure".to_owned())),
        ClientOutcome::ManualUrl {
            view_url: "http://x".to_owned(),
            error: "controlled browser failure".to_owned()
        }
    );
}

#[test]
fn connection_failures_then_start_retry_or_time_out() {
    let absent = || EndpointError::io("connect", io::Error::new(io::ErrorKind::NotFound, "missing"));
    assert!(after_first_connect_failure(absent()).is_ok());
    assert!(after_retry_connect_failure(absent(), true).is_ok());
    assert!(matches!(
        after_retry_connect_failure(absent(), false),
        Err(ClientError::StartupTimeout)
    ));
    let denied = EndpointError::io("connect", io::Error::new(io::ErrorKind::PermissionDenied, "no"));
    assert!(matches!(after_first_connect_failure(denied), Err(ClientError::Endpoint(_))));
    assert!(retries_exchange(&ProtocolError::Io("reset".to_owned())));
    assert!(!retries_exchange(&ProtocolError::InvalidNativePath));
    assert_eq!(
        ClientError::StartupTimeout.message(),
        "Lens background service did not start within three seconds"
    );
}

#[test]
fn requests_then_dispatch_by_version_and_kind() {
    assert!(matches!(
        dispatch(open_request(2)),
        Dispatch::Respond(ServiceResponse::Incompatible { supported_version: ProtocolVersion(1) })
    ));
    assert!(matches!(dispatch(open_request(1)), Dispatch::Open(_)));
    assert!(matches!(
        dispatch(ServiceRequest::Stop(StopRequest { protocol_version: ProtocolVersion(1) })),
        Dispatch::Stop
    ));
}

#[test]
fn service_stages_then_advance_on_stop_and_cleanup() {
    assert_eq!(next_stage(ServiceStage::Serving, ServiceSignal::Accepted), ServiceStage::Serving);
    assert_eq!(next_stage(ServiceStage::Serving, ServiceSignal::StopRequested), ServiceStage::Draining);
    assert_eq!(next_stage(ServiceStage::Draining, ServiceSignal::CleanupComplete), ServiceStage::Closing);
    assert!(matches!(after_claim(Err(EndpointError::AlreadyOwned)), Ok(false)));
    assert!(matches!(after_claim(Ok(())), Ok(true)));
    let mut ids = ConnectionIds::new();
    assert_eq!(ids.allocate(), 0);
    assert_eq!(ids.allocate(), 1);
    assert_eq!(ids_with_flag(&[(0, true), (1, false), (2, false)], false), vec![1, 2]);
}

#[test]
fn windows_working_directory_then_prefers_system_root() {
    assert_eq!(
        windows_working_directory(Some("C:\\Windows".to_owned()), None, None).expect("root"),
        "C:\\Windows"
    );
    assert_eq!(
        windows_working_directory(None, None, Some("D:".to_owned())).expect("drive"),
        "D:\\"
    );
    assert!(matches!(
        windows_working_directory(None, None, None),
        Err(ProcessError::StableWorkingDirectory(_))
    ));
}

#[test]
fn filled_random_bytes_then_become_the_request_identifier() {
    let bytes = [7u8, 1, 2, 3, 4, 5, 6, 8, 9, 10, 11, 12, 13, 14, 15, 16];
    let id = request_id_from(Ok(()), bytes).expect("filled bytes make an identifier");
    assert_eq!(id.0, bytes);
    let failed = request_id_from(Err("no entropy".to_owned()), bytes);
    match failed {
        Err(ClientError::RequestIdentifier(reason)) => assert_eq!(reason, "no entropy"),
        _ => panic!("a failed source reports its text"),
    }
}

#[test]
fn fresh_request_identifiers_then_differ() {
    let first = new_request_id().expect("randomness should be available");
    let second = new_request_id().expect("randomness should be available");
    assert_ne!(first.0, second.0);
}
