//! Properties of the client engine that span several steps.

use vstd::prelude::*;

use crate::engine::{
    ActionV, EngineV, IceCandidateV, IncomingV, PeerState, Role, ScreenV, SessionV, UiCommandV,
    attempts_from, command_step, to_peer, fresh_session, next_reconnect_attempt, peer_state_step,
    server_step, signal_step, RECONNECT_TRIES,
};
use crate::protocol::{ClientMessageV, IceServerV, ServerMessageV, SignalPayloadV};

verus! {

/// The signal payload that carries candidate `c`.
pub open spec fn candidate_payload(c: IceCandidateV) -> SignalPayloadV {
    SignalPayloadV::IceCandidate {
        candidate: c.candidate,
        sdp_mid: c.sdp_mid,
        sdp_mline_index: c.sdp_mline_index,
    }
}

/// The session after the candidates `cs` arrived one by one, and the
/// actions they led to.
pub open spec fn feed_candidates(s: SessionV, cs: Seq<IceCandidateV>) -> (SessionV, Seq<ActionV>)
    decreases cs.len(),
{
    if cs.len() == 0 {
        (s, seq![])
    } else {
        let (s1, a1) = feed_candidates(s, cs.drop_last());
        let (s2, a2) = signal_step(s1, candidate_payload(cs.last()));
        (s2, a1 + a2)
    }
}

/// Hands each candidate on, in order.
pub open spec fn add_all(cs: Seq<IceCandidateV>) -> Seq<ActionV> {
    cs.map_values(|c: IceCandidateV| ActionV::AddIce(c))
}

/// Candidates that arrive before the remote description is set are not
/// handed on; they wait, in arrival order, behind those already waiting.
pub proof fn law_early_candidates_wait_in_order(s: SessionV, cs: Seq<IceCandidateV>)
    requires
        !s.remote_set,
    ensures
        feed_candidates(s, cs).0 == (SessionV { pending: s.pending + cs, ..s }),
        feed_candidates(s, cs).1 == Seq::<ActionV>::empty(),
    decreases cs.len(),
{
    if cs.len() > 0 {
        law_early_candidates_wait_in_order(s, cs.drop_last());
        let c = cs.last();
        let c2 = IceCandidateV { candidate: c.candidate, sdp_mid: c.sdp_mid, sdp_mline_index: c.sdp_mline_index };
        assert(c2 == c);
        assert((s.pending + cs.drop_last()).push(c) =~= s.pending + cs);
        let (s1, a1) = feed_candidates(s, cs.drop_last());
        assert(signal_step(s1, candidate_payload(c)).0 == (SessionV { pending: s1.pending.push(c), ..s1 }));
        assert(a1 + Seq::<ActionV>::empty() =~= Seq::<ActionV>::empty());
    } else {
        assert(s.pending + cs =~= s.pending);
    }
}

/// Once the remote description is set, every candidate is handed on at
/// once, in arrival order, and none waits.
pub proof fn law_late_candidates_pass_in_order(s: SessionV, cs: Seq<IceCandidateV>)
    requires
        s.remote_set,
    ensures
        feed_candidates(s, cs).0 == s,
        feed_candidates(s, cs).1 == add_all(cs),
    decreases cs.len(),
{
    if cs.len() > 0 {
        law_late_candidates_pass_in_order(s, cs.drop_last());
        let c = cs.last();
        let c2 = IceCandidateV { candidate: c.candidate, sdp_mid: c.sdp_mid, sdp_mline_index: c.sdp_mline_index };
        assert(c2 == c);
        assert(add_all(cs.drop_last()) + seq![ActionV::AddIce(cs.last())] =~= add_all(cs));
    } else {
        assert(add_all(cs) =~= Seq::<ActionV>::empty());
    }
}

/// An offer that arrives after early candidates: the candidates wait, in
/// arrival order, and none is handed on; the offer is taken as it stands;
/// the answer goes to the offering party under the session id; and once the
/// remote description is set, exactly the waiting candidates are handed on
/// (see `remote_description_set`), in order.
pub proof fn law_offer_is_answered_then_candidates_follow(
    s: SessionV,
    cs: Seq<IceCandidateV>,
    sdp: Seq<char>,
    answer: Seq<char>,
)
    requires
        !s.remote_set,
        s.pending.len() == 0,
    ensures
        feed_candidates(s, cs).1 == Seq::<ActionV>::empty(),
        feed_candidates(s, cs).0.pending == cs,
        signal_step(feed_candidates(s, cs).0, SignalPayloadV::Offer { sdp }) == (
            feed_candidates(s, cs).0,
            seq![ActionV::AcceptOffer { sdp }],
        ),
        to_peer(feed_candidates(s, cs).0, SignalPayloadV::Answer { sdp: answer })
            == (ClientMessageV::Signal { session: s.id, to: s.peer, payload: SignalPayloadV::Answer { sdp: answer } }),
{
    law_early_candidates_wait_in_order(s, cs);
    assert(s.pending + cs =~= cs);
}

/// A request that arrives while a session or another request is active is
/// refused as busy, and nothing else changes.
pub proof fn law_busy_engine_refuses_requests(e: EngineV, session: Seq<char>, from: Seq<char>, ice: Seq<IceServerV>)
    requires
        e.session is Some || e.incoming is Some,
    ensures
        server_step(e, ServerMessageV::IncomingConnect { session, from, ice_servers: ice }).0 == e,
        server_step(e, ServerMessageV::IncomingConnect { session, from, ice_servers: ice }).1 == seq![
            ActionV::Send(
                ClientMessageV::ConnectResponse { session, to: from, accept: false, reason: Some("meşgul"@) },
            ),
        ],
{
}

/// An idle engine shows a request and, when the user accepts, becomes the
/// host of exactly that request.
pub proof fn law_accept_hosts_the_shown_request(e: EngineV, session: Seq<char>, from: Seq<char>, ice: Seq<IceServerV>)
    requires
        e.session is None,
        e.incoming is None,
    ensures
        ({
            let (e1, a1) = server_step(e, ServerMessageV::IncomingConnect { session, from, ice_servers: ice });
            let (e2, a2) = command_step(e1, UiCommandV::Accept);
            &&& e1.ui.screen == ScreenV::Incoming { from }
            &&& a1 == Seq::<ActionV>::empty()
            &&& a2 == seq![ActionV::StartHost(IncomingV { session, from, ice })]
            &&& e2.incoming is None
        }),
{
}

/// Rejecting a shown request answers its sender with a refusal and returns
/// to the home screen with no request left.
pub proof fn law_reject_answers_the_requester(e: EngineV, session: Seq<char>, from: Seq<char>, ice: Seq<IceServerV>)
    requires
        e.session is None,
        e.incoming is None,
    ensures
        ({
            let (e1, _a1) = server_step(e, ServerMessageV::IncomingConnect { session, from, ice_servers: ice });
            let (e2, a2) = command_step(e1, UiCommandV::Reject);
            &&& a2 == seq![
                ActionV::Send(
                    ClientMessageV::ConnectResponse {
                        session,
                        to: from,
                        accept: false,
                        reason: Some("reddedildi"@),
                    },
                ),
            ]
            &&& e2.incoming is None
            &&& e2.ui.screen == ScreenV::Home
        }),
{
}

/// Hanging up always ends the session, tells the server when there was one,
/// drops the last frame and returns to the home screen.
pub proof fn law_hangup_ends_the_session(e: EngineV)
    ensures
        command_step(e, UiCommandV::Hangup).0.session is None,
        command_step(e, UiCommandV::Hangup).0.ui.screen == ScreenV::Home,
        command_step(e, UiCommandV::Hangup).1.last() == ActionV::ClearFrames,
        e.session matches Some(s) ==> command_step(e, UiCommandV::Hangup).1[0] == ActionV::Send(
            ClientMessageV::Hangup { session: s.id },
        ),
{
}

/// The host starts capturing once, on the first report that the peer
/// connection is up; later reports start nothing.
pub proof fn law_capture_starts_once(e: EngineV, id: Seq<char>, peer: Seq<char>)
    requires
        e.session == Some(fresh_session(id, peer, Role::Host)),
    ensures
        ({
            let (e1, a1) = peer_state_step(e, PeerState::Connected);
            let (e2, a2) = peer_state_step(e1, PeerState::Connected);
            &&& a1 == seq![ActionV::StartCapture]
            &&& a2 == Seq::<ActionV>::empty()
            &&& e2.session is Some
        }),
{
}

/// A failed peer-to-peer path ends the session and tells the server.
pub proof fn law_failed_peer_ends_the_session(e: EngineV)
    requires
        e.session is Some,
    ensures
        peer_state_step(e, PeerState::Failed).0.session is None,
        peer_state_step(e, PeerState::Failed).1 == seq![
            ActionV::Send(ClientMessageV::Hangup { session: e.session->0.id }),
            ActionV::ClosePeer,
            ActionV::ClearFrames,
        ],
{
}

/// Input events reach the other side only from a viewer's session: a host
/// session or no session drops them, and the engine stays as it was.
pub proof fn law_input_only_from_a_viewer(e: EngineV, id: Seq<char>, peer: Seq<char>)
    ensures
        command_step(e, UiCommandV::Input).0 == e,
        e.session is None ==> command_step(e, UiCommandV::Input).1 == Seq::<ActionV>::empty(),
        e.session == Some(fresh_session(id, peer, Role::Host)) ==> command_step(e, UiCommandV::Input).1
            == Seq::<ActionV>::empty(),
        e.session == Some(fresh_session(id, peer, Role::Viewer)) ==> command_step(e, UiCommandV::Input).1
            == seq![ActionV::ForwardInput],
{
}

/// Silent reconnecting makes exactly `RECONNECT_TRIES` attempts, numbered
/// 1, 2, ... in turn, before it gives up and the login form is shown.
pub proof fn law_reconnect_gives_up_after_the_last_try()
    ensures
        attempts_from(1) == RECONNECT_TRIES,
        forall|a: nat| 1 <= a < RECONNECT_TRIES ==> #[trigger] next_reconnect_attempt(a) == Some(a + 1),
        next_reconnect_attempt(RECONNECT_TRIES as nat) is None,
{
    reveal_with_fuel(attempts_from, 6);
}

/// When the server reports that a request was accepted, the engine starts
/// the viewer for exactly that session and peer, with exactly the ICE
/// servers the server handed out, and does nothing else.
pub proof fn law_accepted_request_starts_the_viewer(e: EngineV, session: Seq<char>, peer: Seq<char>, ice: Seq<IceServerV>)
    ensures
        server_step(e, ServerMessageV::ConnectAccepted { session, peer, ice_servers: ice }).1 == seq![
            ActionV::StartViewer { session, peer, ice },
        ],
        server_step(e, ServerMessageV::ConnectAccepted { session, peer, ice_servers: ice }).0 == e,
{
}

} // verus!
