//! Error taxonomy of the RPC session protocol, and the wire encoding of the
//! handshake reject reason.
//!
//! A handshake reject reason travels on the wire as a small integer. Decoding
//! is total: an unrecognized integer maps to `Unknown`, never to a decode
//! failure.

use vstd::prelude::*;

verus! {

/// Reason a server rejects an RPC session during the handshake.
#[derive(Clone, Copy, Debug, PartialEq, Eq)]
pub enum HandshakeRejectReason {
    UnsupportedVersion,
    NoSessionsAvailable,
    ProtocolNotSupported,
    Unknown(&'static str),
}

/// The wire code of a reject reason.
pub open spec fn reject_reason_code(r: HandshakeRejectReason) -> int {
    match r {
        HandshakeRejectReason::UnsupportedVersion => 0,
        HandshakeRejectReason::NoSessionsAvailable => 1,
        HandshakeRejectReason::ProtocolNotSupported => 2,
        HandshakeRejectReason::Unknown(_) => 3,
    }
}

/// The reject reason a wire code decodes to: total, with every unrecognized
/// code mapping to `Unknown`.
pub open spec fn reject_reason_of_code(v: int) -> HandshakeRejectReason {
    if v == 0 {
        HandshakeRejectReason::UnsupportedVersion
    } else if v == 1 {
        HandshakeRejectReason::NoSessionsAvailable
    } else if v == 2 {
        HandshakeRejectReason::ProtocolNotSupported
    } else {
        HandshakeRejectReason::Unknown("reject reason is not known")
    }
}

impl HandshakeRejectReason {
    /// Encodes this reason as its wire code.
    pub fn as_i32(&self) -> (v: i32)
        ensures
            v == reject_reason_code(*self),
    {
        match self {
            HandshakeRejectReason::UnsupportedVersion => 0,
            HandshakeRejectReason::NoSessionsAvailable => 1,
            HandshakeRejectReason::ProtocolNotSupported => 2,
            HandshakeRejectReason::Unknown(_) => 3,
        }
    }

    /// Decodes a wire code, `None` when the code is outside the closed set.
    pub fn from_i32(v: i32) -> (r: Option<Self>)
        ensures
            0 <= v <= 3 ==> r == Some(reject_reason_of_code(v as int)),
            !(0 <= v <= 3) ==> r is None,
    {
        match v {
            0 => Some(HandshakeRejectReason::UnsupportedVersion),
            1 => Some(HandshakeRejectReason::NoSessionsAvailable),
            2 => Some(HandshakeRejectReason::ProtocolNotSupported),
            3 => Some(HandshakeRejectReason::Unknown("reject reason is not known")),
            _ => None,
        }
    }

    /// Decodes a wire code totally: an unrecognized code yields `Unknown`
    /// with a generic message, never a failure.
    pub fn from_wire_code(v: i32) -> (r: Self)
        ensures
            r == reject_reason_of_code(v as int),
    {
        match Self::from_i32(v) {
            Some(r) => r,
            None => HandshakeRejectReason::Unknown("reject reason is not known"),
        }
    }
}

/// Law: encoding any reject reason and decoding the code lands back in the
/// closed set: the three specific reasons decode to themselves, and every
/// `Unknown` decodes to `Unknown`; any code outside the closed set decodes
/// to `Unknown` as well.
pub proof fn lemma_reject_reason_round_trip(r: HandshakeRejectReason, v: int)
    ensures
        !(r is Unknown) ==> reject_reason_of_code(reject_reason_code(r)) == r,
        r is Unknown ==> reject_reason_of_code(reject_reason_code(r)) is Unknown,
        !(0 <= v <= 3) ==> reject_reason_of_code(v) is Unknown,
{
}

#[verifier::external_type_specification]
#[verifier::external_body]
pub struct ExAnyhowError(anyhow::Error);

/// The structured status a remote sends when it fails a request.
#[derive(Debug)]
pub struct RpcStatus {
    pub code: u16,
    pub details: String,
}

/// Why an RPC handshake failed from the client's point of view.
#[derive(Debug)]
pub enum RpcHandshakeError {
    /// The server rejected the session with a reason from the closed set.
    Rejected(HandshakeRejectReason),
    /// The handshake reply never arrived.
    TimedOut,
    /// The handshake reply could not be decoded.
    DecodeFailed,
}

/// The error taxonomy of the RPC session protocol. Each failure is a
/// distinguishable kind, so that callers can branch on retryability.
#[derive(Debug)]
pub enum RpcError {
    /// A message failed to decode.
    DecodeError(prost::DecodeError),
    /// The underlying stream failed.
    Io(String),
    /// The client connection is already closed.
    ClientClosed,
    /// The remote failed the request and sent its structured status.
    RequestFailed(RpcStatus),
    /// The remote peer unexpectedly closed the RPC connection.
    ServerClosedRequest,
    /// The caller cancelled the request.
    RequestCancelled,
    /// A response arrived bearing an id other than the awaited request's.
    ResponseIdDidNotMatchRequest { expected: u16, actual: u16 },
    /// An internal client-side failure.
    ClientInternalError(String),
    /// The handshake failed.
    HandshakeError(RpcHandshakeError),
    /// No response arrived within the caller's timeout.
    ReplyTimeout,
    /// A ping response carried an invalid payload.
    InvalidPingResponse,
    /// A response arrived for a request that is no longer outstanding,
    /// typically after a previous timeout freed its id.
    UnexpectedAckResponse,
    /// More payload chunks were sent than the protocol allows.
    ExceededMaxChunkCount { expected: usize },
    /// The request body exceeded the size limit.
    MaxRequestSizeExceeded { got: usize, expected: usize },
    /// A failure outside the taxonomy, carried through unchanged.
    UnknownError(anyhow::Error),
}

impl RpcError {
    /// Wraps an internal client-side failure description.
    pub fn client_internal_error(err: String) -> (r: Self)
        ensures
            r == RpcError::ClientInternalError(err),
    {
        RpcError::ClientInternalError(err)
    }

    /// Whether the caller may retry the failed request: only a timeout or a
    /// caller-initiated cancellation is retryable.
    pub fn is_retryable(&self) -> (r: bool)
        ensures
            r == (*self is ReplyTimeout || *self is RequestCancelled),
    {
        match self {
            RpcError::ReplyTimeout => true,
            RpcError::RequestCancelled => true,
            _ => false,
        }
    }

    /// Whether the failure shows the peer misbehaving at the protocol level —
    /// a decode failure or a size-limit violation — so the peer should be
    /// flagged rather than retried.
    pub fn is_peer_misbehaviour(&self) -> (r: bool)
        ensures
            r == (*self is DecodeError || *self is ExceededMaxChunkCount
                || *self is MaxRequestSizeExceeded),
    {
        match self {
            RpcError::DecodeError(_) => true,
            RpcError::ExceededMaxChunkCount { .. } => true,
            RpcError::MaxRequestSizeExceeded { .. } => true,
            _ => false,
        }
    }
}

/// Law: no failure is both retryable and peer misbehaviour — the two
/// classifications never overlap, so a caller's branch on them is exclusive.
pub proof fn lemma_retryable_never_misbehaviour(e: RpcError)
    ensures
        !((e is ReplyTimeout || e is RequestCancelled) && (e is DecodeError
            || e is ExceededMaxChunkCount || e is MaxRequestSizeExceeded)),
{
}

} // verus!
