//! What holds of every handshake, proved from its step function.

use vstd::prelude::*;
use crate::handshake::{
    is_final, rank, spec_admission, spec_negotiate, state_of, ActionModel, EventModel,
    HandshakeError, HandshakeModel, HandshakeRole, Phase,
};
use crate::message::{spec_unpack_hello, FieldModel, V1ResultType};
use crate::version::{known, lemma_unknown_versions_play_no_part};

verus! {

/// The handshake after a run of events, one step for each.
pub open spec fn run(start: HandshakeModel, events: Seq<EventModel>) -> HandshakeModel
    decreases events.len(),
{
    if events.len() == 0 {
        start
    } else {
        run(start, events.drop_last()).step(events.last()).0
    }
}

/// Whether the peer's certificate has been verified in this phase.
pub open spec fn past_verdict(phase: Phase) -> bool {
    match phase {
        Phase::AwaitRequestSent
        | Phase::AwaitResult
        | Phase::AwaitRequest
        | Phase::AwaitSlot(_)
        | Phase::AwaitResultSent(_, _)
        | Phase::Established(_)
        | Phase::Rejected => true,
        _ => false,
    }
}

/// Whether a responder in this phase has had a queue slot reserved.
pub open spec fn past_reservation(phase: Phase) -> bool {
    match phase {
        Phase::AwaitResultSent(_, true) | Phase::Established(_) => true,
        _ => false,
    }
}

/// Version negotiation: this node's offer and any set of versions that a
/// peer may send, known to this node or not, give exactly the versions they
/// share if they share one, and the version error if they share none.
pub proof fn lemma_version_negotiation(own: u32, peer: u32)
    requires
        known(own),
    ensures
        own & peer != 0 ==> spec_negotiate(own, peer) == Ok::<u32, HandshakeError>(own & peer),
        own & peer == 0 ==> spec_negotiate(own, peer) == Err::<u32, HandshakeError>(
            HandshakeError::NoSharedVersion,
        ),
{
    assert(own & !1u32 == 0 ==> ((own & peer != 0) <==> ((own & peer) & 1u32 == 1u32)))
        by (bit_vector);
}

/// The hello step: where the offers share a version, the handshake goes on
/// with the versions they share; where they share none, it fails with the
/// version error, for good.
pub proof fn lemma_hello_step(handshake: HandshakeModel, peer: u32)
    requires
        handshake.phase == Phase::AwaitHello,
        known(handshake.offered),
    ensures
        handshake.offered & peer != 0 ==> {
            let (after, action) = handshake.step(EventModel::HelloReceived(peer));
            &&& after.negotiated == handshake.offered & peer
            &&& after.phase == Phase::AwaitNonce
            &&& action == ActionModel::GenerateNonce
        },
        handshake.offered & peer == 0 ==> {
            let (after, action) = handshake.step(EventModel::HelloReceived(peer));
            &&& after.phase == Phase::Failed(HandshakeError::NoSharedVersion)
            &&& action == (ActionModel::Abort {
                error: HandshakeError::NoSharedVersion,
                release: None,
            })
        },
{
    lemma_version_negotiation(handshake.offered, peer);
}

/// A hello as it comes off the wire: whatever number the peer sent, the
/// hello is read, and the handshake goes on with exactly the versions that
/// this node's offer and the number share. It fails only where they share
/// none. A version in the number that this node does not know is no reason
/// to fail.
pub proof fn lemma_hello_from_the_wire(
    handshake: HandshakeModel,
    number: u32,
    rest: Seq<FieldModel>,
)
    requires
        handshake.phase == Phase::AwaitHello,
        known(handshake.offered),
    ensures
        spec_unpack_hello(seq![FieldModel::U32(number)] + rest) is Ok,
        ({
            let peer = spec_unpack_hello(seq![FieldModel::U32(number)] + rest)->Ok_0;
            let (after, action) = handshake.step(EventModel::HelloReceived(peer));
            &&& handshake.offered & number != 0 ==> after.negotiated == handshake.offered & number
                && after.phase == Phase::AwaitNonce && action == ActionModel::GenerateNonce
            &&& handshake.offered & number == 0 ==> after.phase == Phase::Failed(
                HandshakeError::NoSharedVersion,
            )
        }),
{
    let peer = spec_unpack_hello(seq![FieldModel::U32(number)] + rest)->Ok_0;
    lemma_unknown_versions_play_no_part(handshake.offered, number);
    lemma_hello_step(handshake, peer);
}

/// The states are passed in order: no step takes a handshake to an earlier
/// state.
pub proof fn lemma_step_never_goes_back(handshake: HandshakeModel, event: EventModel)
    ensures
        rank(state_of(handshake.step(event).0.phase)) >= rank(state_of(handshake.phase)),
{
}

/// A handshake that has ended stays as it is, whatever is reported to it.
pub proof fn lemma_final_is_absorbing(handshake: HandshakeModel, event: EventModel)
    requires
        is_final(handshake.phase),
    ensures
        handshake.step(event) == (handshake, ActionModel::Nothing),
{
}

/// A step changes nothing but the phase, the negotiated versions, the nonce
/// and the peer's certificate; the nonce only when it is drawn, and the
/// certificate only when it arrives.
pub proof fn lemma_step_keeps_the_rest(handshake: HandshakeModel, event: EventModel)
    ensures
        handshake.step(event).0.role == handshake.role,
        handshake.step(event).0.offered == handshake.offered,
        handshake.step(event).0.peer == handshake.peer,
        handshake.phase != Phase::AwaitNonce ==> handshake.step(event).0.own_nonce
            == handshake.own_nonce,
        handshake.phase != Phase::AwaitSignature ==> handshake.step(event).0.peer_cert
            == handshake.peer_cert,
{
}

/// Each side signs what the peer generated: the nonce to sign is the one
/// that arrived in the peer's challenge.
pub proof fn lemma_signs_peer_nonce(handshake: HandshakeModel, peer_nonce: Seq<u8>)
    requires
        handshake.phase == Phase::AwaitChallenge,
    ensures
        handshake.step(EventModel::ChallengeReceived(peer_nonce)).1 == ActionModel::Sign(
            peer_nonce,
        ),
{
}

/// Each side verifies against what it generated itself: the certificate that
/// arrived is checked against the nonce this side drew and sent, and it is
/// that certificate which the handshake keeps.
pub proof fn lemma_verifies_against_own_nonce(handshake: HandshakeModel, cert: Seq<u8>)
    requires
        handshake.phase == Phase::AwaitSignature,
    ensures
        handshake.step(EventModel::SignatureReceived(cert)).1 == (ActionModel::Verify {
            cert,
            nonce: handshake.own_nonce,
        }),
        handshake.step(EventModel::SignatureReceived(cert)).0.peer_cert == cert,
        handshake.step(EventModel::SignatureReceived(cert)).0.phase == Phase::AwaitVerdict,
{
}

/// The nonce that is sent is the nonce that was drawn, and it is kept for
/// the verification.
pub proof fn lemma_sends_drawn_nonce(handshake: HandshakeModel, nonce: Seq<u8>)
    requires
        handshake.phase == Phase::AwaitNonce,
        nonce.len() == 32,
    ensures
        handshake.step(EventModel::NonceGenerated(nonce)).1 == ActionModel::ExchangeChallenge(
            nonce,
        ),
        handshake.step(EventModel::NonceGenerated(nonce)).0.own_nonce == nonce,
{
}

/// No replay: a certificate that does not verify against the nonce of this
/// handshake ends the handshake with an authentication error, wherever the
/// certificate came from and whatever nonce it once verified against.
/// `verifies` stands for the verification primitive.
pub proof fn lemma_replayed_signature_fails(
    handshake: HandshakeModel,
    cert: Seq<u8>,
    verifies: spec_fn(Seq<u8>, Seq<u8>) -> bool,
)
    requires
        handshake.phase == Phase::AwaitSignature,
        !verifies(cert, handshake.own_nonce),
    ensures
        ({
            let (asked, action) = handshake.step(EventModel::SignatureReceived(cert));
            let (after, last) = asked.step(
                EventModel::Verified(verifies(cert, handshake.own_nonce)),
            );
            &&& action == (ActionModel::Verify { cert, nonce: handshake.own_nonce })
            &&& after.phase == Phase::Failed(HandshakeError::InvalidSignature)
            &&& last == (ActionModel::Abort {
                error: HandshakeError::InvalidSignature,
                release: None,
            })
        }),
{
}

/// A result that accepts is sent only in answer to a slot that was reserved,
/// and a result that rejects only in answer to a slot that was refused.
pub proof fn lemma_result_follows_reservation(handshake: HandshakeModel, event: EventModel)
    requires
        handshake.step(event).1 is SendResult,
    ensures
        handshake.phase is AwaitSlot,
        event is SlotReserved,
        handshake.step(event).1 == ActionModel::SendResult(
            spec_admission(event->SlotReserved_0),
        ),
        spec_admission(true) == V1ResultType::Accept,
        spec_admission(false) == V1ResultType::Reject,
{
}

/// One step reaches a phase behind the verification only from such a phase,
/// or by a verdict that the certificate is good.
pub proof fn lemma_verdict_gate(handshake: HandshakeModel, event: EventModel)
    requires
        past_verdict(handshake.step(event).0.phase),
    ensures
        past_verdict(handshake.phase) || (handshake.phase == Phase::AwaitVerdict && event
            == EventModel::Verified(true)),
{
}

/// One step takes a responder to a phase in which it holds or has used a
/// slot only from such a phase, or by a reservation that succeeded.
pub proof fn lemma_reservation_gate(handshake: HandshakeModel, event: EventModel)
    requires
        handshake.role == HandshakeRole::Responder,
        past_reservation(handshake.step(event).0.phase),
    ensures
        past_reservation(handshake.phase) || (handshake.phase is AwaitSlot && event
            == EventModel::SlotReserved(true)),
{
}

/// A run keeps the role.
pub proof fn lemma_run_keeps_role(start: HandshakeModel, events: Seq<EventModel>)
    ensures
        run(start, events).role == start.role,
    decreases events.len(),
{
    if events.len() > 0 {
        lemma_run_keeps_role(start, events.drop_last());
    }
}

/// Along a run the states are passed in order.
pub proof fn lemma_run_never_goes_back(start: HandshakeModel, events: Seq<EventModel>)
    ensures
        rank(state_of(run(start, events).phase)) >= rank(state_of(start.phase)),
    decreases events.len(),
{
    if events.len() > 0 {
        lemma_run_never_goes_back(start, events.drop_last());
    }
}

/// A session is never partially valid: a run that starts before the
/// verification and ends established, or rejected by the peer, holds a
/// verdict that the peer's certificate is good.
pub proof fn lemma_established_was_verified(start: HandshakeModel, events: Seq<EventModel>)
    requires
        !past_verdict(start.phase),
        past_verdict(run(start, events).phase),
    ensures
        exists|i: int| 0 <= i < events.len() && #[trigger] events[i] == EventModel::Verified(true),
    decreases events.len(),
{
    if events.len() > 0 {
        let before = run(start, events.drop_last());
        lemma_verdict_gate(before, events.last());
        if past_verdict(before.phase) {
            lemma_established_was_verified(start, events.drop_last());
            let i = choose|i: int|
                0 <= i < events.drop_last().len() && #[trigger] events.drop_last()[i]
                    == EventModel::Verified(true);
            assert(events[i] == EventModel::Verified(true));
        } else {
            assert(events[events.len() - 1] == EventModel::Verified(true));
        }
    }
}

/// No session without a slot: a responder's run that starts without a slot
/// and ends established holds a reservation that succeeded.
pub proof fn lemma_responder_established_had_slot(start: HandshakeModel, events: Seq<EventModel>)
    requires
        start.role == HandshakeRole::Responder,
        !past_reservation(start.phase),
        past_reservation(run(start, events).phase),
    ensures
        exists|i: int|
            0 <= i < events.len() && #[trigger] events[i] == EventModel::SlotReserved(true),
    decreases events.len(),
{
    if events.len() > 0 {
        let before = run(start, events.drop_last());
        lemma_run_keeps_role(start, events.drop_last());
        lemma_reservation_gate(before, events.last());
        if past_reservation(before.phase) {
            lemma_responder_established_had_slot(start, events.drop_last());
            let i = choose|i: int|
                0 <= i < events.drop_last().len() && #[trigger] events.drop_last()[i]
                    == EventModel::SlotReserved(true);
            assert(events[i] == EventModel::SlotReserved(true));
        } else {
            assert(events[events.len() - 1] == EventModel::SlotReserved(true));
        }
    }
}

/// A handshake that failed gives no session, whatever comes after: every
/// run from a failed handshake ends in the same failure.
pub proof fn lemma_failure_is_final(start: HandshakeModel, events: Seq<EventModel>)
    requires
        start.phase is Failed,
    ensures
        run(start, events) == start,
    decreases events.len(),
{
    if events.len() > 0 {
        lemma_failure_is_final(start, events.drop_last());
    }
}

/// A run of two runs of events, one after the other, is the second run from
/// where the first one ended.
pub proof fn lemma_run_concat(start: HandshakeModel, first: Seq<EventModel>, then: Seq<EventModel>)
    ensures
        run(start, first + then) == run(run(start, first), then),
    decreases then.len(),
{
    if then.len() == 0 {
        assert(first + then =~= first);
    } else {
        lemma_run_concat(start, first, then.drop_last());
        assert((first + then).drop_last() =~= first + then.drop_last());
        assert((first + then).last() == then.last());
    }
}

/// No shared version, no session: a handshake whose peer offers no version
/// that this node offers ends with the version error, and whatever is
/// reported afterwards, it is never established.
pub proof fn lemma_no_shared_version_gives_no_session(
    role: HandshakeRole,
    offered: u32,
    address: Seq<char>,
    peer: u32,
    rest: Seq<EventModel>,
)
    requires
        known(offered),
        offered & peer == 0,
    ensures
        run(
            HandshakeModel::initial(role, offered, address),
            seq![EventModel::Begin, EventModel::HelloReceived(peer)] + rest,
        ).phase == Phase::Failed(HandshakeError::NoSharedVersion),
{
    let start = HandshakeModel::initial(role, offered, address);
    let opening = seq![EventModel::Begin, EventModel::HelloReceived(peer)];
    let begun = start.step(EventModel::Begin).0;
    lemma_hello_step(begun, peer);
    assert(opening.drop_last() =~= seq![EventModel::Begin]);
    assert(opening.drop_last().drop_last() =~= Seq::<EventModel>::empty());
    assert(run(start, opening.drop_last().drop_last()) == start);
    assert(run(start, opening.drop_last()) == begun);
    let failed = run(start, opening);
    assert(failed == begun.step(EventModel::HelloReceived(peer)).0);
    lemma_run_concat(start, opening, rest);
    lemma_failure_is_final(failed, rest);
}

} // verus!
