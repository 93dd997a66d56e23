use p2p_core::framing::{decode_frame_length, encode_frame};
use p2p_core::rpc::{HandshakeRejectReason, RpcError};
use p2p_core::session::{
    check_response_id, decide_session_admission, RpcSession, SessionState,
};

#[test]
fn reject_reason_wire_codes_are_stable() {
    assert_eq!(HandshakeRejectReason::UnsupportedVersion.as_i32(), 0);
    assert_eq!(HandshakeRejectReason::NoSessionsAvailable.as_i32(), 1);
    assert_eq!(HandshakeRejectReason::ProtocolNotSupported.as_i32(), 2);
    assert_eq!(HandshakeRejectReason::Unknown("x").as_i32(), 3);
}

#[test]
fn reject_reason_round_trips_through_the_wire() {
    for code in 0..=3 {
        let decoded = HandshakeRejectReason::from_i32(code).unwrap();
        assert_eq!(decoded.as_i32(), code);
    }
    assert!(HandshakeRejectReason::from_i32(4).is_none());
    assert!(HandshakeRejectReason::from_i32(-1).is_none());
}

#[test]
fn unrecognized_wire_code_decodes_to_unknown() {
    assert!(matches!(
        HandshakeRejectReason::from_wire_code(99),
        HandshakeRejectReason::Unknown(_)
    ));
    assert!(matches!(
        HandshakeRejectReason::from_wire_code(-7),
        HandshakeRejectReason::Unknown(_)
    ));
    assert!(matches!(
        HandshakeRejectReason::from_wire_code(1),
        HandshakeRejectReason::NoSessionsAvailable
    ));
}

#[test]
fn timeout_and_cancellation_are_retryable_nothing_else_is() {
    assert!(RpcError::ReplyTimeout.is_retryable());
    assert!(RpcError::RequestCancelled.is_retryable());
    assert!(!RpcError::ClientClosed.is_retryable());
    assert!(!RpcError::ServerClosedRequest.is_retryable());
    assert!(!RpcError::UnexpectedAckResponse.is_retryable());
}

#[test]
fn size_and_decode_violations_mark_the_peer_misbehaving() {
    let too_big = RpcError::MaxRequestSizeExceeded { got: 10, expected: 4 };
    assert!(too_big.is_peer_misbehaviour());
    assert!(!too_big.is_retryable());
    let chunks = RpcError::ExceededMaxChunkCount { expected: 16 };
    assert!(chunks.is_peer_misbehaviour());
    // An empty buffer fails to decode; the failure carries the codec's error.
    let decode_failure = decode_frame_length(&vec![], 100).unwrap_err();
    assert!(matches!(decode_failure, RpcError::DecodeError(_)));
    assert!(decode_failure.is_peer_misbehaviour());
    assert!(!RpcError::ReplyTimeout.is_peer_misbehaviour());
}

#[test]
fn frame_length_round_trips() {
    let payload = vec![9u8, 8, 7];
    let frame = encode_frame(&payload, 100).unwrap();
    // One varint byte for a small length, then the payload unchanged.
    assert_eq!(frame, vec![3u8, 9, 8, 7]);
    assert_eq!(decode_frame_length(&frame, 100).unwrap(), 3);
}

#[test]
fn frame_length_round_trips_with_multi_byte_header() {
    let payload = vec![0u8; 300];
    let frame = encode_frame(&payload, 1000).unwrap();
    // 300 = 0xAC 0x02 in base-128 varint form.
    assert_eq!(frame.len(), 302);
    assert_eq!(&frame[0..2], &[0xac, 0x02]);
    assert_eq!(decode_frame_length(&frame, 1000).unwrap(), 300);
}

#[test]
fn oversized_request_body_is_refused() {
    let payload = vec![0u8; 5];
    let err = encode_frame(&payload, 4).unwrap_err();
    assert!(matches!(
        err,
        RpcError::MaxRequestSizeExceeded { got: 5, expected: 4 }
    ));
    // A frame announcing more than the limit is refused on the way in too.
    let frame = encode_frame(&payload, 100).unwrap();
    let err = decode_frame_length(&frame, 4).unwrap_err();
    assert!(matches!(
        err,
        RpcError::MaxRequestSizeExceeded { got: 5, expected: 4 }
    ));
}

#[test]
fn remaining_error_kinds_are_neither_retryable_nor_misbehaviour() {
    let failed = RpcError::RequestFailed(p2p_core::rpc::RpcStatus {
        code: 14,
        details: String::from("not found"),
    });
    assert!(!failed.is_retryable());
    assert!(!failed.is_peer_misbehaviour());
    let io = RpcError::Io(String::from("connection reset"));
    assert!(!io.is_retryable());
    assert!(!io.is_peer_misbehaviour());
    assert!(!RpcError::InvalidPingResponse.is_retryable());
    let unknown = RpcError::UnknownError(anyhow::Error::msg("something else entirely"));
    assert!(!unknown.is_retryable());
    assert!(!unknown.is_peer_misbehaviour());
}

#[test]
fn client_internal_error_carries_its_description() {
    let e = RpcError::client_internal_error(String::from("socket vanished"));
    assert!(matches!(e, RpcError::ClientInternalError(d) if d == "socket vanished"));
}

#[test]
fn mismatched_response_id_is_an_error_never_a_match() {
    assert!(check_response_id(7, 7).is_ok());
    let err = check_response_id(7, 9).unwrap_err();
    assert!(matches!(
        err,
        RpcError::ResponseIdDidNotMatchRequest { expected: 7, actual: 9 }
    ));
}

#[test]
fn response_for_another_id_is_unexpected_and_request_stays_outstanding() {
    let mut session = RpcSession::new();
    session.complete_handshake(Ok(1)).unwrap();
    let id = session.issue_request(0, 50).unwrap();
    assert_eq!(id, 0);
    // A response bearing an id never issued is rejected...
    let err = session.on_response(9).unwrap_err();
    assert!(matches!(err, RpcError::UnexpectedAckResponse));
    // ...and the real request is still matched afterwards.
    assert!(session.on_response(id).is_ok());
    // Once resolved, the id is gone.
    assert!(matches!(
        session.on_response(id).unwrap_err(),
        RpcError::UnexpectedAckResponse
    ));
}

#[test]
fn request_ids_are_unique_while_outstanding() {
    let mut session = RpcSession::new();
    session.complete_handshake(Ok(1)).unwrap();
    let first = session.issue_request(0, 50).unwrap();
    let second = session.issue_request(0, 50).unwrap();
    assert_ne!(first, second);
    assert_eq!(session.requests.len(), 2);
}

#[test]
fn request_id_wraps_around_the_id_space() {
    let mut session = RpcSession::new();
    session.complete_handshake(Ok(1)).unwrap();
    session.next_request_id = 0xffff;
    let id = session.issue_request(0, 50).unwrap();
    assert_eq!(id, 0xffff);
    assert_eq!(session.next_request_id, 0);
}

#[test]
fn timeout_fires_once_and_late_response_is_unexpected_ack() {
    let mut session = RpcSession::new();
    session.complete_handshake(Ok(1)).unwrap();
    let id = session.issue_request(100, 50).unwrap();
    // Before the deadline nothing happens.
    assert!(session.poll_timeout(id, 149).is_none());
    // At the deadline the timeout fires, exactly once.
    let e = session.poll_timeout(id, 150).unwrap();
    assert!(matches!(e, RpcError::ReplyTimeout));
    assert!(session.poll_timeout(id, 200).is_none());
    // A response arriving after the timeout is a stale ack, never a match.
    let late = session.on_response(id).unwrap_err();
    assert!(matches!(late, RpcError::UnexpectedAckResponse));
}

#[test]
fn handshake_rejection_closes_the_session() {
    let mut session = RpcSession::new();
    let err = session
        .complete_handshake(Err(HandshakeRejectReason::NoSessionsAvailable))
        .unwrap_err();
    assert!(matches!(
        err,
        RpcError::HandshakeError(p2p_core::rpc::RpcHandshakeError::Rejected(
            HandshakeRejectReason::NoSessionsAvailable
        ))
    ));
    assert!(matches!(session.state, SessionState::Closed));
}

#[test]
fn session_admission_rejects_with_the_matching_reason() {
    let versions = vec![1u32, 2];
    assert!(matches!(
        decide_session_admission(false, &versions, 2, 0, 10),
        Err(HandshakeRejectReason::ProtocolNotSupported)
    ));
    assert!(matches!(
        decide_session_admission(true, &versions, 3, 0, 10),
        Err(HandshakeRejectReason::UnsupportedVersion)
    ));
    assert!(matches!(
        decide_session_admission(true, &versions, 2, 10, 10),
        Err(HandshakeRejectReason::NoSessionsAvailable)
    ));
    assert_eq!(decide_session_admission(true, &versions, 2, 9, 10), Ok(2));
}
