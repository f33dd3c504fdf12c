use peer_session::accepter::{AcceptOutcome, SessionAccepter};
use peer_session::handshake::{
    admission_result, negotiate, nonce_from_bytes, Handshake, HandshakeAction, HandshakeError,
    HandshakeEvent, HandshakeRole, HandshakeState, Phase,
};
use peer_session::message::{
    Field, FieldReader, HelloMessage, V1ChallengeMessage, V1RequestMessage, V1RequestType,
    V1ResultMessage, V1ResultType, V1SignatureMessage,
};
use peer_session::model::{OmniAddress, OmniCert, SessionHandshakeType, SessionType};
use peer_session::version::SessionVersion;

/// A signer for the tests: the certificate is the nonce under a keyed mask,
/// followed by the key.
fn sign(key: u8, nonce: &[u8; 32]) -> OmniCert {
    let mut value: Vec<u8> = nonce.iter().map(|b| b ^ key).collect();
    value.push(key);
    OmniCert::new(value)
}

fn verify(cert: &OmniCert, expected: &[u8; 32]) -> bool {
    match cert.value.last() {
        Some(key) => cert.value == sign(*key, expected).value,
        None => false,
    }
}

fn nonce_of(seed: u8) -> Vec<u8> {
    (0..32u8).map(|i| i.wrapping_mul(7).wrapping_add(seed)).collect()
}

fn initiator() -> Handshake {
    Handshake::initiator(SessionVersion::v1(), OmniAddress::new("tcp(10.0.0.2:4000)"), SessionType::NodeFinder)
}

fn responder() -> Handshake {
    Handshake::responder(SessionVersion::v1(), OmniAddress::tcp("10.0.0.1:51000"))
}

/// Takes a handshake up to the point where the peer's certificate is to be
/// verified, and hands back the certificate and nonce it asks to verify.
fn up_to_verdict(handshake: &mut Handshake, own: u8, peer: u8, peer_key: u8) -> (OmniCert, [u8; 32]) {
    assert!(matches!(handshake.step(HandshakeEvent::Begin), HandshakeAction::ExchangeHello(_)));
    let hello = HelloMessage { version: SessionVersion::v1() };
    assert!(matches!(
        handshake.step(HandshakeEvent::HelloReceived(hello)),
        HandshakeAction::GenerateNonce
    ));
    let own_nonce = nonce_from_bytes(&nonce_of(own)).unwrap();
    let peer_nonce = nonce_from_bytes(&nonce_of(peer)).unwrap();
    match handshake.step(HandshakeEvent::NonceGenerated(nonce_of(own))) {
        HandshakeAction::ExchangeChallenge(challenge) => assert_eq!(challenge.nonce, own_nonce),
        other => panic!("unexpected action {:?}", other),
    }
    match handshake.step(HandshakeEvent::ChallengeReceived(V1ChallengeMessage { nonce: peer_nonce })) {
        HandshakeAction::Sign(nonce) => assert_eq!(nonce, peer_nonce),
        other => panic!("unexpected action {:?}", other),
    }
    let own_cert = sign(0x11, &peer_nonce);
    match handshake.step(HandshakeEvent::Signed(own_cert.clone())) {
        HandshakeAction::ExchangeSignature(message) => assert_eq!(message.cert.value, own_cert.value),
        other => panic!("unexpected action {:?}", other),
    }
    let peer_cert = sign(peer_key, &own_nonce);
    match handshake.step(HandshakeEvent::SignatureReceived(V1SignatureMessage { cert: peer_cert })) {
        HandshakeAction::Verify { cert, nonce } => (cert, nonce),
        other => panic!("unexpected action {:?}", other),
    }
}

#[test]
fn negotiation_is_the_intersection() {
    let v1 = SessionVersion::v1();
    let none = SessionVersion::empty();
    assert_eq!(negotiate(v1, v1), Ok(v1));
    assert_eq!(negotiate(v1, none), Err(HandshakeError::NoSharedVersion));
    assert_eq!(negotiate(none, v1), Err(HandshakeError::NoSharedVersion));
    assert_eq!(negotiate(none, none), Err(HandshakeError::NoSharedVersion));
}

#[test]
fn admission_result_follows_the_reservation() {
    assert_eq!(admission_result(true), V1ResultMessage { result_type: V1ResultType::Accept });
    assert_eq!(admission_result(false), V1ResultMessage { result_type: V1ResultType::Reject });
}

#[test]
fn nonce_needs_32_bytes() {
    assert_eq!(nonce_from_bytes(&vec![1u8; 31]), None);
    assert_eq!(nonce_from_bytes(&vec![1u8; 33]), None);
    assert_eq!(nonce_from_bytes(&Vec::new()), None);
    let bytes = nonce_of(3);
    let nonce = nonce_from_bytes(&bytes).unwrap();
    assert_eq!(&nonce[..], bytes.as_slice());
}

#[test]
fn new_handshake_is_at_start() {
    let handshake = responder();
    assert_eq!(handshake.phase(), Phase::Ready);
    assert_eq!(handshake.state(), HandshakeState::Start);
    assert_eq!(handshake.role(), HandshakeRole::Responder);
    assert_eq!(handshake.negotiated(), SessionVersion::empty());
    assert!(!handshake.is_done());
    assert_eq!(initiator().role(), HandshakeRole::Initiator(SessionType::NodeFinder));
}

#[test]
fn no_shared_version_fails_the_handshake() {
    let mut handshake = responder();
    match handshake.step(HandshakeEvent::Begin) {
        HandshakeAction::ExchangeHello(hello) => assert_eq!(hello.version, SessionVersion::v1()),
        other => panic!("unexpected action {:?}", other),
    }
    let action = handshake.step(HandshakeEvent::HelloReceived(HelloMessage { version: SessionVersion::empty() }));
    assert!(matches!(
        action,
        HandshakeAction::Abort { error: HandshakeError::NoSharedVersion, release: None }
    ));
    assert_eq!(handshake.phase(), Phase::Failed(HandshakeError::NoSharedVersion));
    assert_eq!(handshake.state(), HandshakeState::Failed);
    assert!(handshake.is_done());
    assert_eq!(handshake.into_session(7u8).err(), Some(7u8));
}

#[test]
fn shared_version_is_negotiated() {
    let mut handshake = initiator();
    handshake.step(HandshakeEvent::Begin);
    let action = handshake.step(HandshakeEvent::HelloReceived(HelloMessage { version: SessionVersion::v1() }));
    assert!(matches!(action, HandshakeAction::GenerateNonce));
    assert_eq!(handshake.negotiated(), SessionVersion::v1());
    assert_eq!(handshake.state(), HandshakeState::HelloExchanged);
}

#[test]
fn peer_that_offers_an_unknown_version_too_negotiates_version_one() {
    for number in [3u32, 0x8000_0001, u32::MAX] {
        let hello = HelloMessage::unpack(&mut FieldReader::new(vec![Field::U32(number)]), 0).unwrap();
        let mut handshake = responder();
        handshake.step(HandshakeEvent::Begin);
        let action = handshake.step(HandshakeEvent::HelloReceived(hello));
        assert!(matches!(action, HandshakeAction::GenerateNonce));
        assert_eq!(handshake.negotiated(), SessionVersion::v1());
        assert_eq!(handshake.negotiated().bits(), 1 & number);
    }
}

#[test]
fn peer_that_offers_unknown_versions_only_shares_none() {
    for number in [0u32, 2, 0xffff_fffe] {
        let hello = HelloMessage::unpack(&mut FieldReader::new(vec![Field::U32(number)]), 0).unwrap();
        let mut handshake = initiator();
        handshake.step(HandshakeEvent::Begin);
        let action = handshake.step(HandshakeEvent::HelloReceived(hello));
        assert!(matches!(
            action,
            HandshakeAction::Abort { error: HandshakeError::NoSharedVersion, release: None }
        ));
        assert!(handshake.into_session(()).is_err());
    }
}

#[test]
fn wrong_nonce_length_fails_the_handshake() {
    let mut handshake = responder();
    handshake.step(HandshakeEvent::Begin);
    handshake.step(HandshakeEvent::HelloReceived(HelloMessage { version: SessionVersion::v1() }));
    let action = handshake.step(HandshakeEvent::NonceGenerated(vec![0u8; 16]));
    assert!(matches!(action, HandshakeAction::Abort { error: HandshakeError::InvalidNonce, release: None }));
}

#[test]
fn signer_failure_fails_the_handshake() {
    let mut handshake = responder();
    handshake.step(HandshakeEvent::Begin);
    handshake.step(HandshakeEvent::HelloReceived(HelloMessage { version: SessionVersion::v1() }));
    handshake.step(HandshakeEvent::NonceGenerated(nonce_of(1)));
    let peer_nonce = nonce_from_bytes(&nonce_of(2)).unwrap();
    handshake.step(HandshakeEvent::ChallengeReceived(V1ChallengeMessage { nonce: peer_nonce }));
    assert_eq!(handshake.state(), HandshakeState::ChallengeExchanged);
    let action = handshake.step(HandshakeEvent::SignFailed);
    assert!(matches!(action, HandshakeAction::Abort { error: HandshakeError::SigningFailed, release: None }));
}

#[test]
fn bad_signature_fails_the_handshake() {
    let mut handshake = responder();
    let (cert, nonce) = up_to_verdict(&mut handshake, 1, 2, 0x22);
    assert!(verify(&cert, &nonce));
    let action = handshake.step(HandshakeEvent::Verified(false));
    assert!(matches!(action, HandshakeAction::Abort { error: HandshakeError::InvalidSignature, release: None }));
    assert_eq!(handshake.phase(), Phase::Failed(HandshakeError::InvalidSignature));
    assert!(handshake.into_session(()).is_err());
}

#[test]
fn replayed_signature_does_not_verify_against_a_fresh_nonce() {
    // A first handshake, in which the peer's certificate is captured.
    let mut first = responder();
    let (captured, first_nonce) = up_to_verdict(&mut first, 1, 2, 0x22);
    assert!(verify(&captured, &first_nonce));

    // A second handshake draws another nonce; the captured certificate is
    // sent again.
    let mut second = responder();
    second.step(HandshakeEvent::Begin);
    second.step(HandshakeEvent::HelloReceived(HelloMessage { version: SessionVersion::v1() }));
    second.step(HandshakeEvent::NonceGenerated(nonce_of(9)));
    let peer_nonce = nonce_from_bytes(&nonce_of(2)).unwrap();
    second.step(HandshakeEvent::ChallengeReceived(V1ChallengeMessage { nonce: peer_nonce }));
    second.step(HandshakeEvent::Signed(sign(0x11, &peer_nonce)));
    let (cert, nonce) = match second.step(HandshakeEvent::SignatureReceived(V1SignatureMessage { cert: captured.clone() })) {
        HandshakeAction::Verify { cert, nonce } => (cert, nonce),
        other => panic!("unexpected action {:?}", other),
    };
    assert_eq!(cert.value, captured.value);
    assert_eq!(nonce, nonce_from_bytes(&nonce_of(9)).unwrap());
    assert_ne!(nonce, first_nonce);
    let verdict = verify(&cert, &nonce);
    assert!(!verdict);
    let action = second.step(HandshakeEvent::Verified(verdict));
    assert!(matches!(action, HandshakeAction::Abort { error: HandshakeError::InvalidSignature, release: None }));
    assert!(second.into_session(()).is_err());
}

#[test]
fn unknown_request_type_is_rejected_as_an_error() {
    let mut handshake = responder();
    up_to_verdict(&mut handshake, 1, 2, 0x22);
    assert!(matches!(handshake.step(HandshakeEvent::Verified(true)), HandshakeAction::ReceiveRequest));
    assert_eq!(handshake.state(), HandshakeState::SignatureExchanged);
    let action = handshake.step(HandshakeEvent::RequestReceived(V1RequestMessage { request_type: V1RequestType::Unknown }));
    assert!(matches!(action, HandshakeAction::Abort { error: HandshakeError::UnknownRequestType, release: None }));
}

#[test]
fn unknown_result_type_fails_the_initiator() {
    let mut handshake = initiator();
    up_to_verdict(&mut handshake, 1, 2, 0x22);
    match handshake.step(HandshakeEvent::Verified(true)) {
        HandshakeAction::SendRequest(request) => assert_eq!(request.request_type, V1RequestType::NodeExchanger),
        other => panic!("unexpected action {:?}", other),
    }
    assert!(matches!(handshake.step(HandshakeEvent::RequestSent), HandshakeAction::ReceiveResult));
    assert_eq!(handshake.state(), HandshakeState::RequestOrResultExchanged);
    let action = handshake.step(HandshakeEvent::ResultReceived(V1ResultMessage { result_type: V1ResultType::Unknown }));
    assert!(matches!(action, HandshakeAction::Abort { error: HandshakeError::InvalidResult, release: None }));
}

#[test]
fn transport_failure_fails_the_handshake_in_any_phase() {
    let mut handshake = initiator();
    handshake.step(HandshakeEvent::Begin);
    let action = handshake.step(HandshakeEvent::TransportFailed);
    assert!(matches!(action, HandshakeAction::Abort { error: HandshakeError::Transport, release: None }));
    let mut later = responder();
    up_to_verdict(&mut later, 1, 2, 0x22);
    let action = later.step(HandshakeEvent::TransportFailed);
    assert!(matches!(action, HandshakeAction::Abort { error: HandshakeError::Transport, release: None }));
}

#[test]
fn event_out_of_turn_fails_the_handshake() {
    let mut handshake = responder();
    let action = handshake.step(HandshakeEvent::Verified(true));
    assert!(matches!(action, HandshakeAction::Abort { error: HandshakeError::UnexpectedEvent, release: None }));
    let mut other = responder();
    up_to_verdict(&mut other, 1, 2, 0x22);
    other.step(HandshakeEvent::Verified(true));
    // A responder gets no result.
    let action = other.step(HandshakeEvent::ResultReceived(V1ResultMessage { result_type: V1ResultType::Accept }));
    assert!(matches!(action, HandshakeAction::Abort { error: HandshakeError::UnexpectedEvent, release: None }));
}

#[test]
fn ended_handshake_ignores_what_follows() {
    let mut handshake = responder();
    handshake.step(HandshakeEvent::TransportFailed);
    assert_eq!(handshake.phase(), Phase::Failed(HandshakeError::Transport));
    assert!(matches!(handshake.step(HandshakeEvent::Begin), HandshakeAction::Nothing));
    assert!(matches!(handshake.step(HandshakeEvent::Verified(true)), HandshakeAction::Nothing));
    assert_eq!(handshake.phase(), Phase::Failed(HandshakeError::Transport));
}

#[test]
fn handshake_that_has_not_ended_makes_no_session() {
    let mut handshake = initiator();
    up_to_verdict(&mut handshake, 1, 2, 0x22);
    handshake.step(HandshakeEvent::Verified(true));
    assert_eq!(handshake.into_session(3u32).err(), Some(3u32));
}

#[test]
fn failure_while_a_slot_is_held_names_the_slot() {
    let mut handshake = responder();
    up_to_verdict(&mut handshake, 1, 2, 0x22);
    handshake.step(HandshakeEvent::Verified(true));
    let action = handshake.step(HandshakeEvent::RequestReceived(V1RequestMessage { request_type: V1RequestType::NodeExchanger }));
    assert!(matches!(action, HandshakeAction::ReserveSlot(SessionType::NodeFinder)));
    let action = handshake.step(HandshakeEvent::SlotReserved(true));
    assert!(matches!(action, HandshakeAction::SendResult(V1ResultMessage { result_type: V1ResultType::Accept })));
    assert_eq!(handshake.phase(), Phase::AwaitResultSent(SessionType::NodeFinder, true));
    let action = handshake.step(HandshakeEvent::TransportFailed);
    assert!(matches!(
        action,
        HandshakeAction::Abort { error: HandshakeError::Transport, release: Some(SessionType::NodeFinder) }
    ));
}

/// Runs both sides of a handshake against an accepter, each side's messages
/// going to the other, and hands back the two handshakes after the result
/// was exchanged.
fn run_both_sides(accepter: &mut SessionAccepter<u32>) -> (Handshake, Handshake, V1ResultType) {
    let mut a = initiator();
    let mut b = responder();
    let hello_a = match a.step(HandshakeEvent::Begin) {
        HandshakeAction::ExchangeHello(m) => m,
        other => panic!("unexpected action {:?}", other),
    };
    let hello_b = match accepter.advance(&mut b, HandshakeEvent::Begin) {
        HandshakeAction::ExchangeHello(m) => m,
        other => panic!("unexpected action {:?}", other),
    };
    assert!(matches!(a.step(HandshakeEvent::HelloReceived(hello_b)), HandshakeAction::GenerateNonce));
    assert!(matches!(accepter.advance(&mut b, HandshakeEvent::HelloReceived(hello_a)), HandshakeAction::GenerateNonce));
    assert_eq!(a.negotiated(), SessionVersion::v1());
    assert_eq!(b.negotiated(), SessionVersion::v1());
    let challenge_a = match a.step(HandshakeEvent::NonceGenerated(nonce_of(0xa0))) {
        HandshakeAction::ExchangeChallenge(m) => m,
        other => panic!("unexpected action {:?}", other),
    };
    let challenge_b = match accepter.advance(&mut b, HandshakeEvent::NonceGenerated(nonce_of(0xb0))) {
        HandshakeAction::ExchangeChallenge(m) => m,
        other => panic!("unexpected action {:?}", other),
    };
    let to_sign_a = match a.step(HandshakeEvent::ChallengeReceived(challenge_b)) {
        HandshakeAction::Sign(n) => n,
        other => panic!("unexpected action {:?}", other),
    };
    let to_sign_b = match accepter.advance(&mut b, HandshakeEvent::ChallengeReceived(challenge_a)) {
        HandshakeAction::Sign(n) => n,
        other => panic!("unexpected action {:?}", other),
    };
    assert_eq!(to_sign_a, challenge_b.nonce);
    assert_eq!(to_sign_b, challenge_a.nonce);
    let signature_a = match a.step(HandshakeEvent::Signed(sign(0x0a, &to_sign_a))) {
        HandshakeAction::ExchangeSignature(m) => m,
        other => panic!("unexpected action {:?}", other),
    };
    let signature_b = match accepter.advance(&mut b, HandshakeEvent::Signed(sign(0x0b, &to_sign_b))) {
        HandshakeAction::ExchangeSignature(m) => m,
        other => panic!("unexpected action {:?}", other),
    };
    let verdict_a = match a.step(HandshakeEvent::SignatureReceived(signature_b)) {
        HandshakeAction::Verify { cert, nonce } => {
            assert_eq!(nonce, challenge_a.nonce);
            verify(&cert, &nonce)
        },
        other => panic!("unexpected action {:?}", other),
    };
    let verdict_b = match accepter.advance(&mut b, HandshakeEvent::SignatureReceived(signature_a)) {
        HandshakeAction::Verify { cert, nonce } => {
            assert_eq!(nonce, challenge_b.nonce);
            verify(&cert, &nonce)
        },
        other => panic!("unexpected action {:?}", other),
    };
    assert!(verdict_a && verdict_b);
    let request = match a.step(HandshakeEvent::Verified(verdict_a)) {
        HandshakeAction::SendRequest(m) => m,
        other => panic!("unexpected action {:?}", other),
    };
    assert_eq!(request.request_type, V1RequestType::NodeExchanger);
    assert!(matches!(accepter.advance(&mut b, HandshakeEvent::Verified(verdict_b)), HandshakeAction::ReceiveRequest));
    assert!(matches!(a.step(HandshakeEvent::RequestSent), HandshakeAction::ReceiveResult));
    let result = match accepter.advance(&mut b, HandshakeEvent::RequestReceived(request)) {
        HandshakeAction::SendResult(m) => m,
        other => panic!("unexpected action {:?}", other),
    };
    (a, b, result.result_type)
}

#[test]
fn end_to_end_both_sides_get_a_session() {
    let mut accepter: SessionAccepter<u32> = SessionAccepter::with_capacity(1);
    let (mut a, mut b, result) = run_both_sides(&mut accepter);
    assert_eq!(result, V1ResultType::Accept);
    assert_eq!(accepter.reserved(SessionType::NodeFinder), 1);
    assert_eq!(accepter.waiting(SessionType::NodeFinder), 0);

    assert!(matches!(
        accepter.advance(&mut b, HandshakeEvent::ResultSent),
        HandshakeAction::Establish(SessionType::NodeFinder)
    ));
    assert_eq!(b.state(), HandshakeState::Established);
    assert_eq!(accepter.establish(b, 200u32), Ok(()));
    assert_eq!(accepter.reserved(SessionType::NodeFinder), 0);
    assert_eq!(accepter.waiting(SessionType::NodeFinder), 1);

    assert!(matches!(
        a.step(HandshakeEvent::ResultReceived(V1ResultMessage { result_type: result })),
        HandshakeAction::Establish(SessionType::NodeFinder)
    ));
    assert_eq!(a.state(), HandshakeState::Established);
    let connected = a.into_session(100u32).ok().unwrap();
    assert_eq!(connected.typ(), SessionType::NodeFinder);
    assert_eq!(connected.handshake_type(), SessionHandshakeType::Connected);
    assert_eq!(connected.address().as_str(), "tcp(10.0.0.2:4000)");
    assert_eq!(*connected.stream(), 100);
    let nonce_a = nonce_from_bytes(&nonce_of(0xa0)).unwrap();
    assert_eq!(connected.signature().value, sign(0x0b, &nonce_a).value);

    let accepted = match accepter.accept(&SessionType::NodeFinder) {
        AcceptOutcome::Ready(session) => session,
        _ => panic!("no session waits"),
    };
    assert_eq!(accepted.typ(), SessionType::NodeFinder);
    assert_eq!(accepted.handshake_type(), SessionHandshakeType::Accepted);
    assert_eq!(accepted.address().as_str(), "tcp(10.0.0.1:51000)");
    let nonce_b = nonce_from_bytes(&nonce_of(0xb0)).unwrap();
    assert_eq!(accepted.signature().value, sign(0x0a, &nonce_b).value);
    assert_eq!(accepted.into_stream(), 200);
    assert!(matches!(accepter.accept(&SessionType::NodeFinder), AcceptOutcome::Pending));
}

#[test]
fn occupied_slot_gives_a_rejection_not_an_error() {
    let mut accepter: SessionAccepter<u32> = SessionAccepter::with_capacity(1);
    assert!(accepter.try_reserve(SessionType::NodeFinder));
    let (mut a, mut b, result) = run_both_sides(&mut accepter);
    assert_eq!(result, V1ResultType::Reject);
    assert_eq!(accepter.reserved(SessionType::NodeFinder), 1);

    assert!(matches!(accepter.advance(&mut b, HandshakeEvent::ResultSent), HandshakeAction::Reject));
    assert_eq!(b.phase(), Phase::Rejected);
    assert_eq!(b.state(), HandshakeState::Rejected);
    assert_eq!(accepter.establish(b, 200u32), Err(200u32));
    assert_eq!(accepter.waiting(SessionType::NodeFinder), 0);

    let action = a.step(HandshakeEvent::ResultReceived(V1ResultMessage { result_type: result }));
    assert!(matches!(action, HandshakeAction::Reject));
    assert_eq!(a.phase(), Phase::Rejected);
    assert_eq!(a.state(), HandshakeState::Rejected);
    assert_eq!(a.into_session(100u32).err(), Some(100u32));
}
