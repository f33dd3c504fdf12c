//! The handshake that turns an anonymous byte stream into an authenticated,
//! purpose-tagged session.
//!
//! Both sides run the same machine. It never touches the stream: each step
//! takes what the caller observed (a message that arrived, a nonce that was
//! drawn, the verdict on a certificate) and answers with the one thing to do
//! next. The caller performs it and comes back with the outcome.

use vstd::prelude::*;
use crate::message::{
    HelloMessage, V1ChallengeMessage, V1RequestMessage, V1RequestType, V1ResultMessage,
    V1ResultType, V1SignatureMessage,
};
use crate::model::{OmniAddress, OmniCert, Session, SessionHandshakeType, SessionModel, SessionType};
use crate::version::{SessionVersion, V1_BIT};

verus! {

/// How far a handshake has come. The states are passed in this order and
/// never backwards; the last three are final.
#[derive(Clone, Copy, Debug, PartialEq, Eq, Structural)]
pub enum HandshakeState {
    Start,
    HelloExchanged,
    ChallengeExchanged,
    SignatureExchanged,
    RequestOrResultExchanged,
    Established,
    Rejected,
    Failed,
}

/// Why a handshake failed.
#[derive(Clone, Copy, Debug, PartialEq, Eq, Structural)]
pub enum HandshakeError {
    /// The two sides offer no version in common that the handshake can go on
    /// with.
    NoSharedVersion,
    /// The random source did not hand out 32 bytes.
    InvalidNonce,
    /// The signer could not sign the peer's nonce.
    SigningFailed,
    /// The peer's certificate does not verify against the nonce sent to it.
    InvalidSignature,
    /// The initiator asked for a purpose that this node does not know.
    UnknownRequestType,
    /// The responder answered with neither accept nor reject.
    InvalidResult,
    /// The stream failed, or a message on it could not be read.
    Transport,
    /// The caller reported something that the handshake was not waiting for.
    UnexpectedEvent,
}

/// The side of the handshake that this node plays.
#[derive(Clone, Copy, Debug, PartialEq, Eq, Structural)]
pub enum HandshakeRole {
    /// This node dialled, and asks for a session of the given purpose.
    Initiator(SessionType),
    /// This node answered.
    Responder,
}

/// What the handshake is waiting for.
#[derive(Clone, Copy, Debug, PartialEq, Eq, Structural)]
pub enum Phase {
    Ready,
    AwaitHello,
    AwaitNonce,
    AwaitChallenge,
    AwaitSigned,
    AwaitSignature,
    AwaitVerdict,
    /// Initiator: the request is on its way.
    AwaitRequestSent,
    /// Initiator: the request is sent, the result is due.
    AwaitResult,
    /// Responder: the request is due.
    AwaitRequest,
    /// Responder: a queue slot for the purpose was asked for.
    AwaitSlot(SessionType),
    /// Responder: the result is on its way; the flag says whether it accepts,
    /// which is also whether a queue slot is held.
    AwaitResultSent(SessionType, bool),
    Established(SessionType),
    Rejected,
    Failed(HandshakeError),
}

/// What the caller observed.
#[derive(Debug)]
pub enum HandshakeEvent {
    /// The stream is open.
    Begin,
    /// The peer's hello arrived.
    HelloReceived(HelloMessage),
    /// The random source handed out these bytes.
    NonceGenerated(Vec<u8>),
    /// The peer's challenge arrived.
    ChallengeReceived(V1ChallengeMessage),
    /// The signer made this certificate over the nonce it was given.
    Signed(OmniCert),
    /// The signer failed.
    SignFailed,
    /// The peer's certificate arrived.
    SignatureReceived(V1SignatureMessage),
    /// The verdict on the certificate that was to be verified.
    Verified(bool),
    /// The request left.
    RequestSent,
    /// The initiator's request arrived.
    RequestReceived(V1RequestMessage),
    /// Whether a queue slot could be reserved.
    SlotReserved(bool),
    /// The result left.
    ResultSent,
    /// The responder's result arrived.
    ResultReceived(V1ResultMessage),
    /// The stream failed, or what arrived was no message of the expected kind.
    TransportFailed,
}

/// An event, with blobs as sequences.
pub enum EventModel {
    Begin,
    HelloReceived(u32),
    NonceGenerated(Seq<u8>),
    ChallengeReceived(Seq<u8>),
    Signed(Seq<u8>),
    SignFailed,
    SignatureReceived(Seq<u8>),
    Verified(bool),
    RequestSent,
    RequestReceived(V1RequestType),
    SlotReserved(bool),
    ResultSent,
    ResultReceived(V1ResultType),
    TransportFailed,
}

impl View for HandshakeEvent {
    type V = EventModel;

    open spec fn view(&self) -> EventModel {
        match self {
            HandshakeEvent::Begin => EventModel::Begin,
            HandshakeEvent::HelloReceived(m) => EventModel::HelloReceived(m.version@),
            HandshakeEvent::NonceGenerated(b) => EventModel::NonceGenerated(b@),
            HandshakeEvent::ChallengeReceived(m) => EventModel::ChallengeReceived(m.nonce@),
            HandshakeEvent::Signed(c) => EventModel::Signed(c@),
            HandshakeEvent::SignFailed => EventModel::SignFailed,
            HandshakeEvent::SignatureReceived(m) => EventModel::SignatureReceived(m.cert@),
            HandshakeEvent::Verified(ok) => EventModel::Verified(*ok),
            HandshakeEvent::RequestSent => EventModel::RequestSent,
            HandshakeEvent::RequestReceived(m) => EventModel::RequestReceived(m.request_type),
            HandshakeEvent::SlotReserved(ok) => EventModel::SlotReserved(*ok),
            HandshakeEvent::ResultSent => EventModel::ResultSent,
            HandshakeEvent::ResultReceived(m) => EventModel::ResultReceived(m.result_type),
            HandshakeEvent::TransportFailed => EventModel::TransportFailed,
        }
    }
}

/// What the caller is to do next.
#[derive(Debug)]
pub enum HandshakeAction {
    /// Send this hello, then receive the peer's.
    ExchangeHello(HelloMessage),
    /// Draw 32 bytes from the random source.
    GenerateNonce,
    /// Send this challenge, then receive the peer's.
    ExchangeChallenge(V1ChallengeMessage),
    /// Sign this nonce: the one that the peer sent.
    Sign([u8; 32]),
    /// Send this certificate, then receive the peer's.
    ExchangeSignature(V1SignatureMessage),
    /// Verify the certificate against the nonce: the one that this node sent.
    Verify { cert: OmniCert, nonce: [u8; 32] },
    /// Send this request.
    SendRequest(V1RequestMessage),
    /// Receive the responder's result.
    ReceiveResult,
    /// Receive the initiator's request.
    ReceiveRequest,
    /// Try to reserve one slot in the queue of this purpose, without waiting.
    ReserveSlot(SessionType),
    /// Send this result.
    SendResult(V1ResultMessage),
    /// The handshake is done: make the session of this purpose.
    Establish(SessionType),
    /// The handshake is done: the responder declined. Drop the stream.
    Reject,
    /// The handshake failed. Tear the stream down, and give back the queue
    /// slot of the named purpose if one is named.
    Abort { error: HandshakeError, release: Option<SessionType> },
    /// The handshake ended earlier; there is nothing to do.
    Nothing,
}

/// An action, with blobs as sequences.
pub enum ActionModel {
    ExchangeHello(u32),
    GenerateNonce,
    ExchangeChallenge(Seq<u8>),
    Sign(Seq<u8>),
    ExchangeSignature(Seq<u8>),
    Verify { cert: Seq<u8>, nonce: Seq<u8> },
    SendRequest(V1RequestType),
    ReceiveResult,
    ReceiveRequest,
    ReserveSlot(SessionType),
    SendResult(V1ResultType),
    Establish(SessionType),
    Reject,
    Abort { error: HandshakeError, release: Option<SessionType> },
    Nothing,
}

impl View for HandshakeAction {
    type V = ActionModel;

    open spec fn view(&self) -> ActionModel {
        match self {
            HandshakeAction::ExchangeHello(m) => ActionModel::ExchangeHello(m.version@),
            HandshakeAction::GenerateNonce => ActionModel::GenerateNonce,
            HandshakeAction::ExchangeChallenge(m) => ActionModel::ExchangeChallenge(m.nonce@),
            HandshakeAction::Sign(n) => ActionModel::Sign(n@),
            HandshakeAction::ExchangeSignature(m) => ActionModel::ExchangeSignature(m.cert@),
            HandshakeAction::Verify { cert, nonce } => ActionModel::Verify {
                cert: cert@,
                nonce: nonce@,
            },
            HandshakeAction::SendRequest(m) => ActionModel::SendRequest(m.request_type),
            HandshakeAction::ReceiveResult => ActionModel::ReceiveResult,
            HandshakeAction::ReceiveRequest => ActionModel::ReceiveRequest,
            HandshakeAction::ReserveSlot(t) => ActionModel::ReserveSlot(*t),
            HandshakeAction::SendResult(m) => ActionModel::SendResult(m.result_type),
            HandshakeAction::Establish(t) => ActionModel::Establish(*t),
            HandshakeAction::Reject => ActionModel::Reject,
            HandshakeAction::Abort { error, release } => ActionModel::Abort {
                error: *error,
                release: *release,
            },
            HandshakeAction::Nothing => ActionModel::Nothing,
        }
    }
}

/// What a handshake knows, with texts and blobs as sequences.
pub struct HandshakeModel {
    pub role: HandshakeRole,
    /// The versions this node offers.
    pub offered: u32,
    /// The peer's address.
    pub peer: Seq<char>,
    pub phase: Phase,
    /// The versions both sides offer; 0 until the hellos are exchanged.
    pub negotiated: u32,
    /// The nonce this node sent; zeros until it is drawn.
    pub own_nonce: Seq<u8>,
    /// The peer's certificate; empty until it arrives.
    pub peer_cert: Seq<u8>,
}

/// The state that a phase belongs to.
pub open spec fn state_of(phase: Phase) -> HandshakeState {
    match phase {
        Phase::Ready | Phase::AwaitHello => HandshakeState::Start,
        Phase::AwaitNonce | Phase::AwaitChallenge => HandshakeState::HelloExchanged,
        Phase::AwaitSigned | Phase::AwaitSignature | Phase::AwaitVerdict => {
            HandshakeState::ChallengeExchanged
        },
        Phase::AwaitRequestSent | Phase::AwaitRequest => HandshakeState::SignatureExchanged,
        Phase::AwaitResult | Phase::AwaitSlot(_) | Phase::AwaitResultSent(_, _) => {
            HandshakeState::RequestOrResultExchanged
        },
        Phase::Established(_) => HandshakeState::Established,
        Phase::Rejected => HandshakeState::Rejected,
        Phase::Failed(_) => HandshakeState::Failed,
    }
}

/// The place of a state in the order of the handshake. The three final states
/// share the last place.
pub open spec fn rank(state: HandshakeState) -> int {
    match state {
        HandshakeState::Start => 0,
        HandshakeState::HelloExchanged => 1,
        HandshakeState::ChallengeExchanged => 2,
        HandshakeState::SignatureExchanged => 3,
        HandshakeState::RequestOrResultExchanged => 4,
        HandshakeState::Established => 5,
        HandshakeState::Rejected => 5,
        HandshakeState::Failed => 5,
    }
}

/// Whether a phase is final.
pub open spec fn is_final(phase: Phase) -> bool {
    phase is Established || phase is Rejected || phase is Failed
}

/// The purpose whose queue slot a responder holds in this phase, if it holds
/// one: from the moment the reservation succeeded until the session is made.
pub open spec fn held_slot(phase: Phase) -> Option<SessionType> {
    match phase {
        Phase::AwaitResultSent(typ, true) => Some(typ),
        _ => None,
    }
}

/// The versions that two offers have in common.
pub open spec fn common_versions(own: u32, peer: u32) -> u32 {
    own & peer
}

/// What negotiation gives: the common versions if version 1, with which the
/// handshake goes on, is among them, and the version error if not. Of sets
/// of known versions the common ones hold version 1 as soon as they hold any.
pub open spec fn spec_negotiate(own: u32, peer: u32) -> Result<u32, HandshakeError> {
    let common = common_versions(own, peer);
    if common & V1_BIT == V1_BIT {
        Ok(common)
    } else {
        Err(HandshakeError::NoSharedVersion)
    }
}

/// The result that a responder sends after trying to reserve a slot.
pub open spec fn spec_admission(reserved: bool) -> V1ResultType {
    if reserved {
        V1ResultType::Accept
    } else {
        V1ResultType::Reject
    }
}

impl HandshakeModel {
    /// A handshake before its first step.
    pub open spec fn initial(role: HandshakeRole, offered: u32, peer: Seq<char>) -> HandshakeModel {
        HandshakeModel {
            role,
            offered,
            peer,
            phase: Phase::Ready,
            negotiated: 0,
            own_nonce: Seq::new(32, |i: int| 0u8),
            peer_cert: Seq::empty(),
        }
    }

    /// The same handshake in another phase.
    pub open spec fn at(self, phase: Phase) -> HandshakeModel {
        HandshakeModel { phase, ..self }
    }

    /// The handshake after it failed, and the action that reports it.
    pub open spec fn fail(self, error: HandshakeError) -> (HandshakeModel, ActionModel) {
        (
            self.at(Phase::Failed(error)),
            ActionModel::Abort { error, release: held_slot(self.phase) },
        )
    }

    /// The role as a session records it.
    pub open spec fn side(self) -> SessionHandshakeType {
        match self.role {
            HandshakeRole::Initiator(_) => SessionHandshakeType::Connected,
            HandshakeRole::Responder => SessionHandshakeType::Accepted,
        }
    }

    /// One step of the handshake: the handshake after the event, and what the
    /// caller is to do next.
    pub open spec fn step(self, event: EventModel) -> (HandshakeModel, ActionModel) {
        if is_final(self.phase) {
            (self, ActionModel::Nothing)
        } else if event is TransportFailed {
            self.fail(HandshakeError::Transport)
        } else {
            match (self.phase, event) {
                (Phase::Ready, EventModel::Begin) => (
                    self.at(Phase::AwaitHello),
                    ActionModel::ExchangeHello(self.offered),
                ),
                (Phase::AwaitHello, EventModel::HelloReceived(peer)) => {
                    match spec_negotiate(self.offered, peer) {
                        Ok(common) => (
                            HandshakeModel { negotiated: common, ..self.at(Phase::AwaitNonce) },
                            ActionModel::GenerateNonce,
                        ),
                        Err(error) => self.fail(error),
                    }
                },
                (Phase::AwaitNonce, EventModel::NonceGenerated(bytes)) => {
                    if bytes.len() == 32 {
                        (
                            HandshakeModel { own_nonce: bytes, ..self.at(Phase::AwaitChallenge) },
                            ActionModel::ExchangeChallenge(bytes),
                        )
                    } else {
                        self.fail(HandshakeError::InvalidNonce)
                    }
                },
                (Phase::AwaitChallenge, EventModel::ChallengeReceived(nonce)) => (
                    self.at(Phase::AwaitSigned),
                    ActionModel::Sign(nonce),
                ),
                (Phase::AwaitSigned, EventModel::Signed(cert)) => (
                    self.at(Phase::AwaitSignature),
                    ActionModel::ExchangeSignature(cert),
                ),
                (Phase::AwaitSigned, EventModel::SignFailed) => self.fail(
                    HandshakeError::SigningFailed,
                ),
                (Phase::AwaitSignature, EventModel::SignatureReceived(cert)) => (
                    HandshakeModel { peer_cert: cert, ..self.at(Phase::AwaitVerdict) },
                    ActionModel::Verify { cert, nonce: self.own_nonce },
                ),
                (Phase::AwaitVerdict, EventModel::Verified(ok)) => {
                    if !ok {
                        self.fail(HandshakeError::InvalidSignature)
                    } else {
                        match self.role {
                            HandshakeRole::Initiator(typ) => (
                                self.at(Phase::AwaitRequestSent),
                                ActionModel::SendRequest(typ.spec_request_type()),
                            ),
                            HandshakeRole::Responder => (
                                self.at(Phase::AwaitRequest),
                                ActionModel::ReceiveRequest,
                            ),
                        }
                    }
                },
                (Phase::AwaitRequestSent, EventModel::RequestSent) => (
                    self.at(Phase::AwaitResult),
                    ActionModel::ReceiveResult,
                ),
                (Phase::AwaitResult, EventModel::ResultReceived(result)) => {
                    match (self.role, result) {
                        (HandshakeRole::Initiator(typ), V1ResultType::Accept) => (
                            self.at(Phase::Established(typ)),
                            ActionModel::Establish(typ),
                        ),
                        (HandshakeRole::Initiator(_), V1ResultType::Reject) => (
                            self.at(Phase::Rejected),
                            ActionModel::Reject,
                        ),
                        (HandshakeRole::Initiator(_), V1ResultType::Unknown) => self.fail(
                            HandshakeError::InvalidResult,
                        ),
                        (HandshakeRole::Responder, _) => self.fail(HandshakeError::UnexpectedEvent),
                    }
                },
                (Phase::AwaitRequest, EventModel::RequestReceived(request)) => {
                    match SessionType::spec_from_request(request) {
                        Some(typ) => (
                            self.at(Phase::AwaitSlot(typ)),
                            ActionModel::ReserveSlot(typ),
                        ),
                        None => self.fail(HandshakeError::UnknownRequestType),
                    }
                },
                (Phase::AwaitSlot(typ), EventModel::SlotReserved(reserved)) => (
                    self.at(Phase::AwaitResultSent(typ, reserved)),
                    ActionModel::SendResult(spec_admission(reserved)),
                ),
                (Phase::AwaitResultSent(typ, accepted), EventModel::ResultSent) => {
                    if accepted {
                        (self.at(Phase::Established(typ)), ActionModel::Establish(typ))
                    } else {
                        (self.at(Phase::Rejected), ActionModel::Reject)
                    }
                },
                _ => self.fail(HandshakeError::UnexpectedEvent),
            }
        }
    }
}

/// Decides the versions of a session from the two offers: those that both
/// sides offer, if version 1 is among them.
pub fn negotiate(own: SessionVersion, peer: SessionVersion) -> (r: Result<
    SessionVersion,
    HandshakeError,
>)
    ensures
        r matches Ok(v) ==> spec_negotiate(own@, peer@) == Ok::<u32, HandshakeError>(v@),
        r matches Err(e) ==> spec_negotiate(own@, peer@) == Err::<u32, HandshakeError>(e),
{
    let common = own.intersection(peer);
    if common.contains(SessionVersion::v1()) {
        Ok(common)
    } else {
        Err(HandshakeError::NoSharedVersion)
    }
}

/// The result that a responder sends after it tried to reserve a queue slot:
/// accept if the slot is reserved, reject if the queue was full.
pub fn admission_result(reserved: bool) -> (r: V1ResultMessage)
    ensures
        r.result_type == spec_admission(reserved),
{
    if reserved {
        V1ResultMessage { result_type: V1ResultType::Accept }
    } else {
        V1ResultMessage { result_type: V1ResultType::Reject }
    }
}

/// The nonce that `bytes` holds, if they are exactly 32.
pub fn nonce_from_bytes(bytes: &Vec<u8>) -> (r: Option<[u8; 32]>)
    ensures
        r is Some <==> bytes@.len() == 32,
        r matches Some(nonce) ==> nonce@ == bytes@,
{
    if bytes.len() != 32 {
        return None;
    }
    let mut nonce = [0u8; 32];
    let mut i: usize = 0;
    while i < 32
        invariant
            i <= 32,
            bytes@.len() == 32,
            forall|j: int| 0 <= j < i ==> nonce@[j] == bytes@[j],
        decreases 32 - i,
    {
        nonce[i] = bytes[i];
        i = i + 1;
    }
    assert(nonce@ =~= bytes@);
    Some(nonce)
}

/// One side of one handshake.
pub struct Handshake {
    role: HandshakeRole,
    offered: SessionVersion,
    peer: OmniAddress,
    phase: Phase,
    negotiated: SessionVersion,
    own_nonce: [u8; 32],
    peer_cert: OmniCert,
}

impl View for Handshake {
    type V = HandshakeModel;

    closed spec fn view(&self) -> HandshakeModel {
        HandshakeModel {
            role: self.role,
            offered: self.offered@,
            peer: self.peer@,
            phase: self.phase,
            negotiated: self.negotiated@,
            own_nonce: self.own_nonce@,
            peer_cert: self.peer_cert@,
        }
    }
}

impl Handshake {
    /// A handshake in the given role, before its first step.
    pub fn new(role: HandshakeRole, offered: SessionVersion, peer: OmniAddress) -> (r: Handshake)
        ensures
            r@ == HandshakeModel::initial(role, offered@, peer@),
    {
        let r = Handshake {
            role,
            offered,
            peer,
            phase: Phase::Ready,
            negotiated: SessionVersion::empty(),
            own_nonce: [0u8; 32],
            peer_cert: OmniCert::new(Vec::new()),
        };
        assert(r.own_nonce@ =~= Seq::new(32, |i: int| 0u8));
        assert(r.peer_cert@ =~= Seq::empty());
        r
    }

    /// The handshake of a node that dialled `peer` and asks for a session of
    /// purpose `requested`.
    pub fn initiator(offered: SessionVersion, peer: OmniAddress, requested: SessionType) -> (r:
        Handshake)
        ensures
            r@ == HandshakeModel::initial(HandshakeRole::Initiator(requested), offered@, peer@),
    {
        Handshake::new(HandshakeRole::Initiator(requested), offered, peer)
    }

    /// The handshake of a node that answered a connection from `peer`.
    pub fn responder(offered: SessionVersion, peer: OmniAddress) -> (r: Handshake)
        ensures
            r@ == HandshakeModel::initial(HandshakeRole::Responder, offered@, peer@),
    {
        Handshake::new(HandshakeRole::Responder, offered, peer)
    }

    /// What the handshake is waiting for.
    pub fn phase(&self) -> (r: Phase)
        ensures
            r == self@.phase,
    {
        self.phase
    }

    /// How far the handshake has come.
    pub fn state(&self) -> (r: HandshakeState)
        ensures
            r == state_of(self@.phase),
    {
        match self.phase {
            Phase::Ready | Phase::AwaitHello => HandshakeState::Start,
            Phase::AwaitNonce | Phase::AwaitChallenge => HandshakeState::HelloExchanged,
            Phase::AwaitSigned | Phase::AwaitSignature | Phase::AwaitVerdict => {
                HandshakeState::ChallengeExchanged
            },
            Phase::AwaitRequestSent | Phase::AwaitRequest => HandshakeState::SignatureExchanged,
            Phase::AwaitResult | Phase::AwaitSlot(_) | Phase::AwaitResultSent(_, _) => {
                HandshakeState::RequestOrResultExchanged
            },
            Phase::Established(_) => HandshakeState::Established,
            Phase::Rejected => HandshakeState::Rejected,
            Phase::Failed(_) => HandshakeState::Failed,
        }
    }

    /// The versions that both sides offer; none before the hellos are exchanged.
    pub fn negotiated(&self) -> (r: SessionVersion)
        ensures
            r@ == self@.negotiated,
    {
        self.negotiated
    }

    /// The side of the handshake that this node plays.
    pub fn role(&self) -> (r: HandshakeRole)
        ensures
            r == self@.role,
    {
        self.role
    }

    /// Whether the handshake has ended.
    pub fn is_done(&self) -> (r: bool)
        ensures
            r == is_final(self@.phase),
    {
        match self.phase {
            Phase::Established(_) | Phase::Rejected | Phase::Failed(_) => true,
            _ => false,
        }
    }

    fn fail(&mut self, error: HandshakeError) -> (action: HandshakeAction)
        ensures
            (final(self)@, action@) == old(self)@.fail(error),
    {
        let release = match self.phase {
            Phase::AwaitResultSent(typ, true) => Some(typ),
            _ => None,
        };
        self.phase = Phase::Failed(error);
        HandshakeAction::Abort { error, release }
    }

    /// Takes one step: records what the caller observed and says what to do
    /// next. A handshake that has ended stays as it is.
    pub fn step(&mut self, event: HandshakeEvent) -> (action: HandshakeAction)
        ensures
            (final(self)@, action@) == old(self)@.step(event@),
    {
        if self.is_done() {
            return HandshakeAction::Nothing;
        }
        match event {
            HandshakeEvent::TransportFailed => self.fail(HandshakeError::Transport),
            HandshakeEvent::Begin => match self.phase {
                Phase::Ready => {
                    self.phase = Phase::AwaitHello;
                    HandshakeAction::ExchangeHello(HelloMessage { version: self.offered })
                },
                _ => self.fail(HandshakeError::UnexpectedEvent),
            },
            HandshakeEvent::HelloReceived(hello) => match self.phase {
                Phase::AwaitHello => match negotiate(self.offered, hello.version) {
                    Ok(common) => {
                        self.negotiated = common;
                        self.phase = Phase::AwaitNonce;
                        HandshakeAction::GenerateNonce
                    },
                    Err(error) => self.fail(error),
                },
                _ => self.fail(HandshakeError::UnexpectedEvent),
            },
            HandshakeEvent::NonceGenerated(bytes) => match self.phase {
                Phase::AwaitNonce => match nonce_from_bytes(&bytes) {
                    Some(nonce) => {
                        self.own_nonce = nonce;
                        self.phase = Phase::AwaitChallenge;
                        HandshakeAction::ExchangeChallenge(V1ChallengeMessage { nonce })
                    },
                    None => self.fail(HandshakeError::InvalidNonce),
                },
                _ => self.fail(HandshakeError::UnexpectedEvent),
            },
            HandshakeEvent::ChallengeReceived(challenge) => match self.phase {
                Phase::AwaitChallenge => {
                    self.phase = Phase::AwaitSigned;
                    HandshakeAction::Sign(challenge.nonce)
                },
                _ => self.fail(HandshakeError::UnexpectedEvent),
            },
            HandshakeEvent::Signed(cert) => match self.phase {
                Phase::AwaitSigned => {
                    self.phase = Phase::AwaitSignature;
                    HandshakeAction::ExchangeSignature(V1SignatureMessage { cert })
                },
                _ => self.fail(HandshakeError::UnexpectedEvent),
            },
            HandshakeEvent::SignFailed => match self.phase {
                Phase::AwaitSigned => self.fail(HandshakeError::SigningFailed),
                _ => self.fail(HandshakeError::UnexpectedEvent),
            },
            HandshakeEvent::SignatureReceived(signature) => match self.phase {
                Phase::AwaitSignature => {
                    let cert = signature.cert.clone();
                    self.peer_cert = signature.cert;
                    self.phase = Phase::AwaitVerdict;
                    HandshakeAction::Verify { cert, nonce: self.own_nonce }
                },
                _ => self.fail(HandshakeError::UnexpectedEvent),
            },
            HandshakeEvent::Verified(ok) => match self.phase {
                Phase::AwaitVerdict => {
                    if !ok {
                        self.fail(HandshakeError::InvalidSignature)
                    } else {
                        match self.role {
                            HandshakeRole::Initiator(typ) => {
                                self.phase = Phase::AwaitRequestSent;
                                HandshakeAction::SendRequest(
                                    V1RequestMessage { request_type: typ.request_type() },
                                )
                            },
                            HandshakeRole::Responder => {
                                self.phase = Phase::AwaitRequest;
                                HandshakeAction::ReceiveRequest
                            },
                        }
                    }
                },
                _ => self.fail(HandshakeError::UnexpectedEvent),
            },
            HandshakeEvent::RequestSent => match self.phase {
                Phase::AwaitRequestSent => {
                    self.phase = Phase::AwaitResult;
                    HandshakeAction::ReceiveResult
                },
                _ => self.fail(HandshakeError::UnexpectedEvent),
            },
            HandshakeEvent::ResultReceived(result) => match (self.phase, self.role) {
                (Phase::AwaitResult, HandshakeRole::Initiator(typ)) => match result.result_type {
                    V1ResultType::Accept => {
                        self.phase = Phase::Established(typ);
                        HandshakeAction::Establish(typ)
                    },
                    V1ResultType::Reject => {
                        self.phase = Phase::Rejected;
                        HandshakeAction::Reject
                    },
                    V1ResultType::Unknown => self.fail(HandshakeError::InvalidResult),
                },
                _ => self.fail(HandshakeError::UnexpectedEvent),
            },
            HandshakeEvent::RequestReceived(request) => match self.phase {
                Phase::AwaitRequest => match SessionType::from_request(request.request_type) {
                    Some(typ) => {
                        self.phase = Phase::AwaitSlot(typ);
                        HandshakeAction::ReserveSlot(typ)
                    },
                    None => self.fail(HandshakeError::UnknownRequestType),
                },
                _ => self.fail(HandshakeError::UnexpectedEvent),
            },
            HandshakeEvent::SlotReserved(reserved) => match self.phase {
                Phase::AwaitSlot(typ) => {
                    self.phase = Phase::AwaitResultSent(typ, reserved);
                    HandshakeAction::SendResult(admission_result(reserved))
                },
                _ => self.fail(HandshakeError::UnexpectedEvent),
            },
            HandshakeEvent::ResultSent => match self.phase {
                Phase::AwaitResultSent(typ, accepted) => {
                    if accepted {
                        self.phase = Phase::Established(typ);
                        HandshakeAction::Establish(typ)
                    } else {
                        self.phase = Phase::Rejected;
                        HandshakeAction::Reject
                    }
                },
                _ => self.fail(HandshakeError::UnexpectedEvent),
            },
        }
    }

    /// Makes the session of an established handshake, which takes the stream.
    /// A handshake in any other phase makes none and hands the stream back.
    pub fn into_session<S>(self, stream: S) -> (r: Result<Session<S>, S>)
        ensures
            match self@.phase {
                Phase::Established(typ) => r matches Ok(session) && session@ == (SessionModel {
                    typ,
                    address: self@.peer,
                    handshake_type: self@.side(),
                    signature: self@.peer_cert,
                    stream,
                }),
                _ => r == Err::<Session<S>, S>(stream),
            },
    {
        match self.phase {
            Phase::Established(typ) => {
                let side = match self.role {
                    HandshakeRole::Initiator(_) => SessionHandshakeType::Connected,
                    HandshakeRole::Responder => SessionHandshakeType::Accepted,
                };
                Ok(Session::assemble(typ, self.peer, side, self.peer_cert, stream))
            },
            _ => Err(stream),
        }
    }
}

} // verus!
