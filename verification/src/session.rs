//! The per-connection RPC session: handshake admission, request id
//! correlation, and timeout handling.
//!
//! Every outstanding request carries an id unique on its session. A
//! response is matched to a request by id alone: a response for an id that
//! is not outstanding — stale after a timeout, or never issued — is
//! reported as an unexpected acknowledgement, never silently matched. A
//! request whose deadline passes moves to the timed-out state exactly once;
//! its entry stays behind as a tombstone so that the id is not reused while
//! a late response could still arrive.

use vstd::prelude::*;
use crate::rpc::{HandshakeRejectReason, RpcError, RpcHandshakeError};

verus! {

/// Where a session stands.
pub enum SessionState {
    /// The version and capability exchange is still in flight.
    Handshaking,
    /// The handshake succeeded with this negotiated version.
    Established { version: u32 },
    /// Closed by either side or by a failed handshake; terminal.
    Closed,
}

/// Whether an in-flight request still awaits its response.
pub enum RequestPhase {
    /// The response may still arrive and will be matched.
    Waiting,
    /// The deadline passed: a response for this id is a stale ack.
    TimedOut,
}

/// One tracked request of a session.
pub struct InFlight {
    /// The id responses are matched against, unique on the session.
    pub id: u16,
    /// The instant the request stops waiting.
    pub deadline: u64,
    /// Waiting or already timed out.
    pub phase: RequestPhase,
}

/// The first index tracking `id`, or `-1` when none does.
pub open spec fn req_index(s: Seq<InFlight>, id: u16) -> int
    decreases s.len(),
{
    if s.len() == 0 {
        -1
    } else if s[0].id == id {
        0
    } else {
        let r = req_index(s.drop_first(), id);
        if r < 0 {
            -1
        } else {
            r + 1
        }
    }
}

/// Whether some entry tracks `id`.
pub open spec fn tracks(s: Seq<InFlight>, id: u16) -> bool {
    req_index(s, id) >= 0
}

/// `req_index` finds the first match: its entry tracks the id, nothing
/// before it does, and `-1` means nothing does at all.
pub proof fn lemma_req_index(s: Seq<InFlight>, id: u16)
    ensures
        req_index(s, id) >= 0 ==> req_index(s, id) < s.len() && s[req_index(s, id)].id == id,
        forall|j: int| 0 <= j < req_index(s, id) ==> s[j].id != id,
        req_index(s, id) < 0 ==> forall|j: int| 0 <= j < s.len() ==> s[j].id != id,
    decreases s.len(),
{
    if s.len() > 0 && s[0].id != id {
        lemma_req_index(s.drop_first(), id);
        assert(forall|j: int| 1 <= j < s.len() ==> s[j] == s.drop_first()[j - 1]);
    }
}

/// What matching a response does to the request table: a waiting entry is
/// resolved and leaves; a timed-out tombstone leaves unresolved; an
/// untracked id changes nothing. The flag says whether the response was
/// matched to its request.
pub open spec fn on_response_spec(s: Seq<InFlight>, id: u16) -> (Seq<InFlight>, bool) {
    let i = req_index(s, id);
    if i < 0 {
        (s, false)
    } else if s[i].phase is Waiting {
        (s.remove(i), true)
    } else {
        (s.remove(i), false)
    }
}

/// What a timeout poll does to the request table: a waiting entry whose
/// deadline has passed becomes a tombstone; everything else is untouched.
/// The flag says whether the request timed out at this poll.
pub open spec fn poll_timeout_spec(s: Seq<InFlight>, id: u16, now: u64) -> (Seq<InFlight>, bool) {
    let i = req_index(s, id);
    if i >= 0 && s[i].phase is Waiting && now >= s[i].deadline {
        (s.update(i, InFlight { id, deadline: s[i].deadline, phase: RequestPhase::TimedOut }), true)
    } else {
        (s, false)
    }
}

/// The session: handshake state, the id the next request takes, and the
/// table of in-flight requests.
pub struct RpcSession {
    pub state: SessionState,
    pub next_request_id: u16,
    pub requests: Vec<InFlight>,
}

impl RpcSession {
    /// Request ids are unique across the table, tombstones included.
    pub open spec fn wf(self) -> bool {
        forall|i: int, j: int|
            0 <= i < j < self.requests@.len() ==> (#[trigger] self.requests@[i]).id != (
            #[trigger] self.requests@[j]).id
    }

    /// A fresh session, still handshaking, with no requests.
    pub fn new() -> (r: RpcSession)
        ensures
            r.wf(),
            r.state is Handshaking,
            r.requests@.len() == 0,
            r.next_request_id == 0,
    {
        RpcSession { state: SessionState::Handshaking, next_request_id: 0, requests: Vec::new() }
    }

    /// Applies the server's handshake decision: admission establishes the
    /// session at the negotiated version; a rejection closes it and
    /// surfaces the reason as a handshake error.
    pub fn complete_handshake(&mut self, outcome: Result<u32, HandshakeRejectReason>) -> (r:
        Result<(), RpcError>)
        requires
            old(self).wf(),
            old(self).state is Handshaking,
        ensures
            final(self).wf(),
            final(self).requests == old(self).requests,
            final(self).next_request_id == old(self).next_request_id,
            outcome matches Ok(v) ==> r is Ok && final(self).state == (SessionState::Established {
                version: v,
            }),
            outcome matches Err(reason) ==> final(self).state is Closed && (r matches Err(e)
                && e matches RpcError::HandshakeError(h) && h
                == RpcHandshakeError::Rejected(reason)),
    {
        match outcome {
            Ok(version) => {
                self.state = SessionState::Established { version };
                Ok(())
            },
            Err(reason) => {
                self.state = SessionState::Closed;
                Err(RpcError::HandshakeError(RpcHandshakeError::Rejected(reason)))
            },
        }
    }

    /// The first table index tracking `id`, if any.
    fn find_request(&self, id: u16) -> (r: Option<usize>)
        ensures
            match r {
                Some(i) => i == req_index(self.requests@, id),
                None => req_index(self.requests@, id) < 0,
            },
    {
        proof {
            lemma_req_index(self.requests@, id);
        }
        let mut i: usize = 0;
        while i < self.requests.len()
            invariant
                i <= self.requests@.len(),
                forall|j: int| 0 <= j < i ==> (#[trigger] self.requests@[j]).id != id,
                req_index(self.requests@, id) >= 0 ==> req_index(self.requests@, id)
                    < self.requests@.len() && self.requests@[req_index(self.requests@, id)].id
                    == id,
                forall|j: int|
                    0 <= j < req_index(self.requests@, id) ==> self.requests@[j].id != id,
                req_index(self.requests@, id) < 0 ==> forall|j: int|
                    0 <= j < self.requests@.len() ==> self.requests@[j].id != id,
            decreases self.requests@.len() - i,
        {
            if self.requests[i].id == id {
                return Some(i);
            }
            i = i + 1;
        }
        None
    }

    /// Issues a request: the next id is taken, recorded as waiting until
    /// `now + timeout`, and returned. When the next id still tracks an
    /// earlier request — every id is occupied by an outstanding request or
    /// a tombstone — the session refuses with an internal error rather
    /// than reuse a live id.
    pub fn issue_request(&mut self, now: u64, timeout: u64) -> (r: Result<u16, RpcError>)
        requires
            old(self).wf(),
            old(self).state matches SessionState::Established { .. },
            now + timeout <= u64::MAX,
        ensures
            final(self).wf(),
            final(self).state == old(self).state,
            tracks(old(self).requests@, old(self).next_request_id) ==> (r matches Err(e) && e
                is ClientInternalError) && *final(self) == *old(self),
            !tracks(old(self).requests@, old(self).next_request_id) ==> (r == Ok::<u16, RpcError>(
                old(self).next_request_id,
            ) && final(self).requests@ == old(self).requests@.push(
                InFlight {
                    id: old(self).next_request_id,
                    deadline: (now + timeout) as u64,
                    phase: RequestPhase::Waiting,
                },
            ) && final(self).next_request_id == ((old(self).next_request_id + 1) % 0x10000)),
    {
        proof {
            lemma_req_index(self.requests@, self.next_request_id);
        }
        let id = self.next_request_id;
        match self.find_request(id) {
            Some(_) => Err(
                RpcError::ClientInternalError(
                    String::from_str("no free request id on this session"),
                ),
            ),
            None => {
                let entry = InFlight {
                    id,
                    deadline: now + timeout,
                    phase: RequestPhase::Waiting,
                };
                let ghost before = self.requests@;
                self.requests.push(entry);
                self.next_request_id = if id == 0xffff {
                    0
                } else {
                    id + 1
                };
                proof {
                    assert(self.requests@[self.requests@.len() - 1] == entry);
                    assert forall|a: int, b: int|
                        0 <= a < b < self.requests@.len() implies (
                    #[trigger] self.requests@[a]).id != (#[trigger] self.requests@[b]).id by {
                        if b == self.requests@.len() - 1 {
                            assert(self.requests@[a] == before[a]);
                            assert(before[a].id != id);
                        } else {
                            assert(self.requests@[a] == before[a] && self.requests@[b]
                                == before[b]);
                        }
                    }
                }
                Ok(id)
            },
        }
    }

    /// Matches a response that arrived bearing `id`. A waiting request
    /// with that id resolves and leaves the table; anything else — a
    /// tombstone left by a timeout, or an id never issued — is reported as
    /// an unexpected acknowledgement and never matched to another request.
    pub fn on_response(&mut self, id: u16) -> (r: Result<(), RpcError>)
        requires
            old(self).wf(),
        ensures
            final(self).wf(),
            final(self).state == old(self).state,
            final(self).next_request_id == old(self).next_request_id,
            final(self).requests@ == on_response_spec(old(self).requests@, id).0,
            r is Ok <==> on_response_spec(old(self).requests@, id).1,
            r matches Err(e) ==> e is UnexpectedAckResponse,
    {
        proof {
            lemma_req_index(self.requests@, id);
        }
        match self.find_request(id) {
            None => Err(RpcError::UnexpectedAckResponse),
            Some(i) => {
                let waiting = match self.requests[i].phase {
                    RequestPhase::Waiting => true,
                    RequestPhase::TimedOut => false,
                };
                let ghost before = self.requests@;
                self.requests.remove(i);
                proof {
                    before.remove_ensures(i as int);
                    assert forall|a: int, b: int|
                        0 <= a < b < self.requests@.len() implies (
                    #[trigger] self.requests@[a]).id != (#[trigger] self.requests@[b]).id by {
                        let ka = if a < i { a } else { a + 1 };
                        let kb = if b < i { b } else { b + 1 };
                        assert(self.requests@[a] == before[ka] && self.requests@[b] == before[kb]);
                        assert(0 <= ka < kb < before.len());
                    }
                }
                if waiting {
                    Ok(())
                } else {
                    Err(RpcError::UnexpectedAckResponse)
                }
            },
        }
    }

    /// Polls one request against the clock: a waiting request whose
    /// deadline has passed becomes a tombstone and reports the reply
    /// timeout — this fires at most once per request; any other state
    /// reports nothing and leaves the table untouched.
    pub fn poll_timeout(&mut self, id: u16, now: u64) -> (r: Option<RpcError>)
        requires
            old(self).wf(),
        ensures
            final(self).wf(),
            final(self).state == old(self).state,
            final(self).next_request_id == old(self).next_request_id,
            final(self).requests@ == poll_timeout_spec(old(self).requests@, id, now).0,
            r is Some <==> poll_timeout_spec(old(self).requests@, id, now).1,
            r matches Some(e) ==> e is ReplyTimeout,
    {
        proof {
            lemma_req_index(self.requests@, id);
        }
        match self.find_request(id) {
            None => None,
            Some(i) => {
                let waiting = match self.requests[i].phase {
                    RequestPhase::Waiting => true,
                    RequestPhase::TimedOut => false,
                };
                if waiting && now >= self.requests[i].deadline {
                    let deadline = self.requests[i].deadline;
                    let ghost before = self.requests@;
                    self.requests.set(
                        i,
                        InFlight { id, deadline, phase: RequestPhase::TimedOut },
                    );
                    proof {
                        assert(self.requests@ == before.update(
                            i as int,
                            InFlight { id, deadline, phase: RequestPhase::TimedOut },
                        ));
                        assert forall|a: int, b: int|
                            0 <= a < b < self.requests@.len() implies (
                        #[trigger] self.requests@[a]).id != (#[trigger] self.requests@[b]).id by {
                            assert(before[a].id != before[b].id);
                            assert(self.requests@[a].id == before[a].id);
                            assert(self.requests@[b].id == before[b].id);
                        }
                    }
                    Some(RpcError::ReplyTimeout)
                } else {
                    None
                }
            },
        }
    }
}

/// Checks that a response bears the id of the request awaiting it. A
/// response bearing any other id produces the id-mismatch error and is
/// never matched to the wrong request.
pub fn check_response_id(expected: u16, actual: u16) -> (r: Result<(), RpcError>)
    ensures
        expected == actual <==> r is Ok,
        expected != actual ==> (r matches Err(e) && e matches
            RpcError::ResponseIdDidNotMatchRequest { expected: pe, actual: pa } && pe == expected
            && pa == actual),
{
    if expected == actual {
        Ok(())
    } else {
        Err(RpcError::ResponseIdDidNotMatchRequest { expected, actual })
    }
}

/// Decides session admission on the server side: the protocol must be
/// known, the client must offer the server's version, and a session slot
/// must be free — checked in that order; otherwise the handshake is
/// rejected with the matching reason.
pub fn decide_session_admission(
    protocol_supported: bool,
    client_versions: &Vec<u32>,
    server_version: u32,
    active_sessions: usize,
    max_sessions: usize,
) -> (r: Result<u32, HandshakeRejectReason>)
    ensures
        !protocol_supported ==> r == Err::<u32, HandshakeRejectReason>(
            HandshakeRejectReason::ProtocolNotSupported,
        ),
        protocol_supported && !client_versions@.contains(server_version) ==> r == Err::<
            u32,
            HandshakeRejectReason,
        >(HandshakeRejectReason::UnsupportedVersion),
        protocol_supported && client_versions@.contains(server_version) && active_sessions
            >= max_sessions ==> r == Err::<u32, HandshakeRejectReason>(
            HandshakeRejectReason::NoSessionsAvailable,
        ),
        protocol_supported && client_versions@.contains(server_version) && active_sessions
            < max_sessions ==> r == Ok::<u32, HandshakeRejectReason>(server_version),
{
    if !protocol_supported {
        return Err(HandshakeRejectReason::ProtocolNotSupported);
    }
    let mut i: usize = 0;
    let mut found = false;
    while i < client_versions.len()
        invariant
            i <= client_versions@.len(),
            found == exists|j: int| 0 <= j < i && client_versions@[j] == server_version,
        decreases client_versions@.len() - i,
    {
        if client_versions[i] == server_version {
            found = true;
        }
        i = i + 1;
    }
    if !found {
        assert(!client_versions@.contains(server_version));
        return Err(HandshakeRejectReason::UnsupportedVersion);
    }
    if active_sessions >= max_sessions {
        return Err(HandshakeRejectReason::NoSessionsAvailable);
    }
    Ok(server_version)
}

/// Law: a request times out at most once, and a response arriving after
/// the timeout is never matched. Once a poll reports the reply timeout,
/// any later poll of the same id reports nothing, and a response bearing
/// that id is rejected as an unexpected acknowledgement.
pub proof fn lemma_timeout_fires_once(s: Seq<InFlight>, id: u16, now1: u64, now2: u64)
    requires
        poll_timeout_spec(s, id, now1).1,
    ensures
        !poll_timeout_spec(poll_timeout_spec(s, id, now1).0, id, now2).1,
        !on_response_spec(poll_timeout_spec(s, id, now1).0, id).1,
{
    let i = req_index(s, id);
    let t = poll_timeout_spec(s, id, now1).0;
    lemma_req_index(s, id);
    lemma_req_index_update(s, i, InFlight { id, deadline: s[i].deadline, phase: RequestPhase::TimedOut });
    assert(req_index(t, id) == i);
    assert(t[i].phase is TimedOut);
}

/// Updating the entry at the first index of its own id keeps that index
/// first.
proof fn lemma_req_index_update(s: Seq<InFlight>, i: int, e: InFlight)
    requires
        0 <= i < s.len(),
        i == req_index(s, e.id),
    ensures
        req_index(s.update(i, e), e.id) == i,
    decreases s.len(),
{
    lemma_req_index(s, e.id);
    let t = s.update(i, e);
    lemma_req_index(t, e.id);
    assert(t[i].id == e.id);
    if req_index(t, e.id) < 0 {
        assert(t[i].id != e.id);
        assert(false);
    }
    let k = req_index(t, e.id);
    if k < i {
        assert(t[k] == s[k]);
        assert(s[k].id != e.id);
        assert(false);
    }
    if k > i {
        assert(forall|j: int| 0 <= j < k ==> t[j].id != e.id);
        assert(t[i].id != e.id);
        assert(false);
    }
}

/// Law: a response is matched only while its request is outstanding; an
/// id the table does not track is never matched.
pub proof fn lemma_untracked_never_matched(s: Seq<InFlight>, id: u16)
    requires
        !tracks(s, id),
    ensures
        !on_response_spec(s, id).1,
        on_response_spec(s, id).0 == s,
{
}

} // verus!
