//! The values that a session is made of: its purpose, the role this node had in
//! the handshake, the peer's address and certificate, and the session itself.

use vstd::prelude::*;
use crate::message::V1RequestType;

verus! {

/// The purpose of a session. It decides which queue and which consumer the
/// session goes to.
#[derive(Clone, Copy, Debug, PartialEq, Eq, Hash, Structural)]
pub enum SessionType {
    NodeFinder,
}

/// How many session purposes there are.
pub const SESSION_TYPE_COUNT: usize = 1;

impl SessionType {
    /// The request type by which an initiator asks for this purpose.
    pub open spec fn spec_request_type(self) -> V1RequestType {
        match self {
            SessionType::NodeFinder => V1RequestType::NodeExchanger,
        }
    }

    /// The purpose that a request type asks for, if it asks for one.
    pub open spec fn spec_from_request(request_type: V1RequestType) -> Option<SessionType> {
        match request_type {
            V1RequestType::NodeExchanger => Some(SessionType::NodeFinder),
            V1RequestType::Unknown => None,
        }
    }

    /// The request type by which an initiator asks for this purpose.
    pub fn request_type(self) -> (r: V1RequestType)
        ensures
            r == self.spec_request_type(),
    {
        match self {
            SessionType::NodeFinder => V1RequestType::NodeExchanger,
        }
    }

    /// The purpose that a request type asks for. `Unknown` asks for none.
    pub fn from_request(request_type: V1RequestType) -> (r: Option<SessionType>)
        ensures
            r == Self::spec_from_request(request_type),
    {
        match request_type {
            V1RequestType::NodeExchanger => Some(SessionType::NodeFinder),
            V1RequestType::Unknown => None,
        }
    }

    /// A request for a purpose is read back as that purpose.
    pub proof fn lemma_request_round_trip(self)
        ensures
            Self::spec_from_request(self.spec_request_type()) == Some(self),
    {
    }
}

/// The role this node had in the handshake that made a session.
#[derive(Clone, Copy, Debug, PartialEq, Eq, Structural)]
pub enum SessionHandshakeType {
    /// This node dialled the peer.
    Connected,
    /// This node answered the peer.
    Accepted,
}

/// The text of the address of a TCP peer with the given socket address.
pub open spec fn tcp_text(socket: Seq<char>) -> Seq<char> {
    seq!['t', 'c', 'p', '('] + socket + seq![')']
}

/// The socket address in the text of an address, if the text has the form
/// of a TCP peer's address.
pub open spec fn spec_tcp_socket(text: Seq<char>) -> Option<Seq<char>> {
    if text.len() >= 5 && text[0] == 't' && text[1] == 'c' && text[2] == 'p' && text[3] == '('
        && text[text.len() - 1] == ')' {
        Some(text.subrange(4, text.len() - 1))
    } else {
        None
    }
}

/// The socket address is read back from the address that was made of it.
pub proof fn lemma_tcp_socket_round_trip(socket: Seq<char>)
    ensures
        spec_tcp_socket(tcp_text(socket)) == Some(socket),
{
    let text = tcp_text(socket);
    assert(text.subrange(4, text.len() - 1) =~= socket);
}

/// A network address in text form, such as `tcp(127.0.0.1:4000)`.
#[derive(Debug)]
pub struct OmniAddress {
    text: String,
}

impl View for OmniAddress {
    type V = Seq<char>;

    closed spec fn view(&self) -> Seq<char> {
        self.text@
    }
}

impl Clone for OmniAddress {
    fn clone(&self) -> (r: Self)
        ensures
            r@ == self@,
    {
        OmniAddress { text: self.text.clone() }
    }
}

impl PartialEq for OmniAddress {
    fn eq(&self, other: &Self) -> (r: bool) {
        self.text == other.text
    }
}

impl Eq for OmniAddress {}

impl vstd::std_specs::cmp::PartialEqSpecImpl for OmniAddress {
    open spec fn obeys_eq_spec() -> bool {
        true
    }

    open spec fn eq_spec(&self, other: &Self) -> bool {
        self@ == other@
    }
}

impl OmniAddress {
    /// The address whose text is `value`.
    pub fn new(value: &str) -> (r: OmniAddress)
        ensures
            r@ == value@,
    {
        OmniAddress { text: String::from_str(value) }
    }

    /// The address of a TCP peer: `tcp(` and `)` around the socket address.
    pub fn tcp(socket: &str) -> (r: OmniAddress)
        ensures
            r@ == tcp_text(socket@),
    {
        let mut text = String::from_str("tcp(");
        text.append(socket);
        text.append(")");
        proof {
            reveal_strlit("tcp(");
            reveal_strlit(")");
            assert("tcp("@ =~= seq!['t', 'c', 'p', '(']);
            assert(")"@ =~= seq![')']);
        }
        OmniAddress { text }
    }

    /// The socket address of a TCP peer: what stands between `tcp(` and `)`.
    /// An address of another form has none.
    pub fn tcp_socket(&self) -> (r: Option<String>)
        ensures
            match spec_tcp_socket(self@) {
                Some(socket) => r matches Some(text) && text@ == socket,
                None => r is None,
            },
    {
        let text = self.text.as_str();
        let len = text.unicode_len();
        if len >= 5 && text.get_char(0) == 't' && text.get_char(1) == 'c' && text.get_char(2) == 'p'
            && text.get_char(3) == '(' && text.get_char(len - 1) == ')' {
            Some(String::from_str(text.substring_char(4, len - 1)))
        } else {
            None
        }
    }

    /// The text of the address.
    pub fn as_str(&self) -> (r: &str)
        ensures
            r@ == self@,
    {
        self.text.as_str()
    }
}

/// A peer: the addresses at which it may be reached, in the order in which
/// they are to be tried. There is at least one.
#[derive(Debug)]
pub struct NodeRef {
    addrs: Vec<OmniAddress>,
}

impl View for NodeRef {
    type V = Seq<Seq<char>>;

    closed spec fn view(&self) -> Seq<Seq<char>> {
        self.addrs@.map_values(|a: OmniAddress| a@)
    }
}

impl Clone for NodeRef {
    fn clone(&self) -> (r: Self)
        ensures
            r@ == self@,
    {
        proof {
            use_type_invariant(self);
        }
        let mut addrs: Vec<OmniAddress> = Vec::new();
        let mut i: usize = 0;
        while i < self.addrs.len()
            invariant
                i <= self.addrs.len(),
                addrs.len() == i,
                forall|j: int| 0 <= j < i ==> addrs[j]@ == self.addrs[j]@,
            decreases self.addrs.len() - i,
        {
            addrs.push(self.addrs[i].clone());
            i = i + 1;
        }
        let r = NodeRef { addrs };
        assert(r@ =~= self@);
        r
    }
}

impl NodeRef {
    #[verifier::type_invariant]
    spec fn inv(self) -> bool {
        self.addrs@.len() > 0
    }

    /// The peer that is reached at `addrs`; `None` where there is no address.
    pub fn new(addrs: Vec<OmniAddress>) -> (r: Option<NodeRef>)
        ensures
            r is Some <==> addrs@.len() > 0,
            r matches Some(node) ==> node@ == addrs@.map_values(|a: OmniAddress| a@),
    {
        if addrs.len() > 0 {
            Some(NodeRef { addrs })
        } else {
            None
        }
    }

    /// How many addresses the peer has: at least one.
    pub fn addr_count(&self) -> (r: usize)
        ensures
            r == self@.len(),
            r > 0,
    {
        proof {
            use_type_invariant(self);
        }
        self.addrs.len()
    }

    /// The address at place `i`.
    pub fn addr(&self, i: usize) -> (r: &OmniAddress)
        requires
            i < self@.len(),
        ensures
            r@ == self@[i as int],
    {
        &self.addrs[i]
    }

    /// Whether two peers have the same addresses in the same order.
    pub fn same(&self, other: &NodeRef) -> (r: bool)
        ensures
            r == (self@ == other@),
    {
        if self.addrs.len() != other.addrs.len() {
            assert(self@.len() != other@.len());
            return false;
        }
        let mut i: usize = 0;
        while i < self.addrs.len()
            invariant
                i <= self.addrs.len(),
                self.addrs.len() == other.addrs.len(),
                forall|j: int| 0 <= j < i ==> self.addrs[j]@ == other.addrs[j]@,
            decreases self.addrs.len() - i,
        {
            if !(self.addrs[i] == other.addrs[i]) {
                assert(self@[i as int] != other@[i as int]);
                return false;
            }
            i = i + 1;
        }
        assert(self@ =~= other@);
        true
    }
}

/// The algorithm that made a hash.
#[derive(Clone, Copy, Debug, PartialEq, Eq, Structural)]
pub enum OmniHashAlgorithmType {
    Unknown,
    Sha3_256,
}

/// A hash, with blobs as sequences.
pub struct HashModel {
    pub typ: OmniHashAlgorithmType,
    pub value: Seq<u8>,
}

/// A hash: the algorithm and the bytes it gave.
#[derive(Debug)]
pub struct OmniHash {
    pub typ: OmniHashAlgorithmType,
    pub value: Vec<u8>,
}

impl View for OmniHash {
    type V = HashModel;

    open spec fn view(&self) -> HashModel {
        HashModel { typ: self.typ, value: self.value@ }
    }
}

impl Clone for OmniHash {
    fn clone(&self) -> (r: Self)
        ensures
            r@ == self@,
    {
        OmniHash { typ: self.typ, value: self.value.clone() }
    }
}

/// Whether two byte strings are the same.
pub fn bytes_equal(a: &Vec<u8>, b: &Vec<u8>) -> (r: bool)
    ensures
        r == (a@ == b@),
{
    if a.len() != b.len() {
        return false;
    }
    let mut i: usize = 0;
    while i < a.len()
        invariant
            i <= a.len(),
            a.len() == b.len(),
            forall|j: int| 0 <= j < i ==> a@[j] == b@[j],
        decreases a.len() - i,
    {
        if a[i] != b[i] {
            return false;
        }
        i = i + 1;
    }
    assert(a@ =~= b@);
    true
}

impl OmniHash {
    /// Whether two hashes are the same: same algorithm, same bytes.
    pub fn same(&self, other: &OmniHash) -> (r: bool)
        ensures
            r == (self@ == other@),
    {
        self.typ == other.typ && bytes_equal(&self.value, &other.value)
    }
}

/// A certificate: the signed blob that a peer sends over a challenge nonce.
/// The library carries it and never looks inside.
#[derive(Debug)]
pub struct OmniCert {
    pub value: Vec<u8>,
}

impl View for OmniCert {
    type V = Seq<u8>;

    open spec fn view(&self) -> Seq<u8> {
        self.value@
    }
}

impl Clone for OmniCert {
    fn clone(&self) -> (r: Self)
        ensures
            r@ == self@,
    {
        OmniCert { value: self.value.clone() }
    }
}

impl OmniCert {
    /// The certificate that holds `value`.
    pub fn new(value: Vec<u8>) -> (r: OmniCert)
        ensures
            r@ == value@,
    {
        OmniCert { value }
    }
}

/// What a session is, with texts and blobs as sequences.
pub struct SessionModel<S> {
    pub typ: SessionType,
    pub address: Seq<char>,
    pub handshake_type: SessionHandshakeType,
    pub signature: Seq<u8>,
    pub stream: S,
}

/// An authenticated, purpose-tagged connection. It owns the stream that the
/// handshake ran over. Only a handshake that reached its established state
/// makes one.
pub struct Session<S> {
    typ: SessionType,
    address: OmniAddress,
    handshake_type: SessionHandshakeType,
    signature: OmniCert,
    stream: S,
}

impl<S> View for Session<S> {
    type V = SessionModel<S>;

    closed spec fn view(&self) -> SessionModel<S> {
        SessionModel {
            typ: self.typ,
            address: self.address@,
            handshake_type: self.handshake_type,
            signature: self.signature@,
            stream: self.stream,
        }
    }
}

impl<S> Session<S> {
    pub(crate) fn assemble(
        typ: SessionType,
        address: OmniAddress,
        handshake_type: SessionHandshakeType,
        signature: OmniCert,
        stream: S,
    ) -> (r: Session<S>)
        ensures
            r@ == (SessionModel {
                typ,
                address: address@,
                handshake_type,
                signature: signature@,
                stream,
            }),
    {
        Session { typ, address, handshake_type, signature, stream }
    }

    /// The purpose of the session.
    pub fn typ(&self) -> (r: SessionType)
        ensures
            r == self@.typ,
    {
        self.typ
    }

    /// The peer's address.
    pub fn address(&self) -> (r: &OmniAddress)
        ensures
            r@ == self@.address,
    {
        &self.address
    }

    /// The role this node had in the handshake.
    pub fn handshake_type(&self) -> (r: SessionHandshakeType)
        ensures
            r == self@.handshake_type,
    {
        self.handshake_type
    }

    /// The peer's certificate, as it was verified in the handshake.
    pub fn signature(&self) -> (r: &OmniCert)
        ensures
            r@ == self@.signature,
    {
        &self.signature
    }

    /// The stream, for as long as the session is borrowed.
    pub fn stream(&self) -> (r: &S)
        ensures
            *r == self@.stream,
    {
        &self.stream
    }

    /// Ends the session and hands its stream back.
    pub fn into_stream(self) -> (r: S)
        ensures
            r == self@.stream,
    {
        self.stream
    }
}

} // verus!
