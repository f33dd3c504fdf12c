//! The messages of the handshake and the numbers that stand for their values on
//! the wire.

use vstd::prelude::*;
use crate::handshake::nonce_from_bytes;
use crate::model::OmniCert;
use crate::version::{known, lemma_unknown_versions_play_no_part, SessionVersion, KNOWN_BITS};

verus! {

/// The length of a challenge nonce in bytes.
pub const NONCE_LEN: usize = 32;

/// What an initiator can ask a session for.
#[derive(Clone, Copy, Debug, PartialEq, Eq, Structural)]
pub enum V1RequestType {
    Unknown,
    NodeExchanger,
}

impl V1RequestType {
    /// The number that stands for the value on the wire.
    pub open spec fn spec_to_u32(self) -> u32 {
        match self {
            V1RequestType::Unknown => 0,
            V1RequestType::NodeExchanger => 1,
        }
    }

    /// The value that a number stands for, if it stands for one.
    pub open spec fn spec_from_u32(n: u32) -> Option<V1RequestType> {
        if n == 0 {
            Some(V1RequestType::Unknown)
        } else if n == 1 {
            Some(V1RequestType::NodeExchanger)
        } else {
            None
        }
    }

    /// The number that stands for the value on the wire.
    pub fn to_u32(&self) -> (r: Option<u32>)
        ensures
            r == Some(self.spec_to_u32()),
    {
        match self {
            V1RequestType::Unknown => Some(0),
            V1RequestType::NodeExchanger => Some(1),
        }
    }

    /// The value that `n` stands for; `None` where it stands for none.
    pub fn from_u32(n: u32) -> (r: Option<V1RequestType>)
        ensures
            r == Self::spec_from_u32(n),
    {
        if n == 0 {
            Some(V1RequestType::Unknown)
        } else if n == 1 {
            Some(V1RequestType::NodeExchanger)
        } else {
            None
        }
    }

    /// A value is read back from its number, and no two values share one.
    pub proof fn lemma_code_round_trip(self)
        ensures
            Self::spec_from_u32(self.spec_to_u32()) == Some(self),
    {
    }
}

/// What a responder answers to a request.
#[derive(Clone, Copy, Debug, PartialEq, Eq, Structural)]
pub enum V1ResultType {
    Unknown,
    Accept,
    Reject,
}

impl V1ResultType {
    /// The number that stands for the value on the wire.
    pub open spec fn spec_to_u32(self) -> u32 {
        match self {
            V1ResultType::Unknown => 0,
            V1ResultType::Accept => 1,
            V1ResultType::Reject => 2,
        }
    }

    /// The value that a number stands for, if it stands for one.
    pub open spec fn spec_from_u32(n: u32) -> Option<V1ResultType> {
        if n == 0 {
            Some(V1ResultType::Unknown)
        } else if n == 1 {
            Some(V1ResultType::Accept)
        } else if n == 2 {
            Some(V1ResultType::Reject)
        } else {
            None
        }
    }

    /// The number that stands for the value on the wire.
    pub fn to_u32(&self) -> (r: Option<u32>)
        ensures
            r == Some(self.spec_to_u32()),
    {
        match self {
            V1ResultType::Unknown => Some(0),
            V1ResultType::Accept => Some(1),
            V1ResultType::Reject => Some(2),
        }
    }

    /// The value that `n` stands for; `None` where it stands for none.
    pub fn from_u32(n: u32) -> (r: Option<V1ResultType>)
        ensures
            r == Self::spec_from_u32(n),
    {
        if n == 0 {
            Some(V1ResultType::Unknown)
        } else if n == 1 {
            Some(V1ResultType::Accept)
        } else if n == 2 {
            Some(V1ResultType::Reject)
        } else {
            None
        }
    }

    /// A value is read back from its number, and no two values share one.
    pub proof fn lemma_code_round_trip(self)
        ensures
            Self::spec_from_u32(self.spec_to_u32()) == Some(self),
    {
    }
}

/// The first message of each side: the versions it offers.
#[derive(Clone, Copy, Debug, PartialEq, Eq, Structural)]
pub struct HelloMessage {
    pub version: SessionVersion,
}

/// The challenge of version 1: a nonce for the peer to sign.
#[derive(Clone, Copy, Debug, PartialEq, Eq)]
pub struct V1ChallengeMessage {
    pub nonce: [u8; 32],
}

/// The answer to a challenge: a certificate over the nonce that was received.
#[derive(Debug)]
pub struct V1SignatureMessage {
    pub cert: OmniCert,
}

/// The initiator's request for a session purpose.
#[derive(Clone, Copy, Debug, PartialEq, Eq, Structural)]
pub struct V1RequestMessage {
    pub request_type: V1RequestType,
}

/// The responder's answer to a request.
#[derive(Clone, Copy, Debug, PartialEq, Eq, Structural)]
pub struct V1ResultMessage {
    pub result_type: V1ResultType,
}

/// One field of a message, as the codec frames it.
#[derive(Debug)]
pub enum Field {
    /// A 32-bit number.
    U32(u32),
    /// A byte string with its length.
    Bytes(Vec<u8>),
}

/// A field, with the byte string as a sequence.
pub enum FieldModel {
    U32(u32),
    Bytes(Seq<u8>),
}

impl View for Field {
    type V = FieldModel;

    open spec fn view(&self) -> FieldModel {
        match self {
            Field::U32(n) => FieldModel::U32(*n),
            Field::Bytes(bytes) => FieldModel::Bytes(bytes@),
        }
    }
}

/// Why a message could not be read.
#[derive(Clone, Copy, Debug, PartialEq, Eq, Structural)]
pub enum MessageError {
    /// No field is left.
    EndOfInput,
    /// The next field is of another kind than the message has there.
    UnexpectedField,
    /// The byte string is longer than the message allows.
    TooLong,
    /// The nonce is not 32 bytes long.
    InvalidNonce,
    /// The number stands for no request type.
    InvalidRequestType,
    /// The number stands for no result type.
    InvalidResultType,
}

/// Collects the fields of messages in the order in which they are put.
#[derive(Debug)]
pub struct FieldWriter {
    fields: Vec<Field>,
}

impl View for FieldWriter {
    type V = Seq<FieldModel>;

    closed spec fn view(&self) -> Seq<FieldModel> {
        self.fields@.map_values(|f: Field| f@)
    }
}

impl FieldWriter {
    /// A writer that holds no field.
    pub fn new() -> (r: FieldWriter)
        ensures
            r@ == Seq::<FieldModel>::empty(),
    {
        let r = FieldWriter { fields: Vec::new() };
        assert(r@ =~= Seq::<FieldModel>::empty());
        r
    }

    /// Puts a number behind the fields that are there.
    pub fn put_u32(&mut self, value: u32)
        ensures
            final(self)@ == old(self)@.push(FieldModel::U32(value)),
    {
        self.fields.push(Field::U32(value));
        assert(self@ =~= old(self)@.push(FieldModel::U32(value)));
    }

    /// Puts a byte string behind the fields that are there.
    pub fn put_bytes(&mut self, value: &[u8])
        ensures
            final(self)@ == old(self)@.push(FieldModel::Bytes(value@)),
    {
        let mut bytes: Vec<u8> = Vec::new();
        let mut i: usize = 0;
        while i < value.len()
            invariant
                i <= value@.len(),
                bytes@ == value@.take(i as int),
            decreases value@.len() - i,
        {
            bytes.push(value[i]);
            assert(bytes@ =~= value@.take(i + 1));
            i = i + 1;
        }
        assert(bytes@ =~= value@);
        self.fields.push(Field::Bytes(bytes));
        assert(self@ =~= old(self)@.push(FieldModel::Bytes(value@)));
    }

    /// The fields that were put, in their order.
    pub fn into_fields(self) -> (r: Vec<Field>)
        ensures
            r@.map_values(|f: Field| f@) == self@,
    {
        self.fields
    }
}

/// What reading a number from the front of `fields` gives.
pub open spec fn read_u32(fields: Seq<FieldModel>) -> Result<u32, MessageError> {
    if fields.len() == 0 {
        Err(MessageError::EndOfInput)
    } else {
        match fields[0] {
            FieldModel::U32(n) => Ok(n),
            FieldModel::Bytes(_) => Err(MessageError::UnexpectedField),
        }
    }
}

/// What reading a byte string of at most `limit` bytes from the front of
/// `fields` gives.
pub open spec fn read_bytes(fields: Seq<FieldModel>, limit: usize) -> Result<
    Seq<u8>,
    MessageError,
> {
    if fields.len() == 0 {
        Err(MessageError::EndOfInput)
    } else {
        match fields[0] {
            FieldModel::U32(_) => Err(MessageError::UnexpectedField),
            FieldModel::Bytes(bytes) => if bytes.len() <= limit {
                Ok(bytes)
            } else {
                Err(MessageError::TooLong)
            },
        }
    }
}

/// Hands out the fields of messages in their order.
#[derive(Debug)]
pub struct FieldReader {
    fields: Vec<Field>,
    next: usize,
}

impl View for FieldReader {
    type V = Seq<FieldModel>;

    /// The fields that are still to be read.
    closed spec fn view(&self) -> Seq<FieldModel> {
        self.fields@.map_values(|f: Field| f@).skip(self.next as int)
    }
}

impl FieldReader {
    /// The place of the next field is among the fields or just behind them.
    pub closed spec fn wf(&self) -> bool {
        self.next <= self.fields@.len()
    }

    /// A reader over `fields`, with all of them still to be read.
    pub fn new(fields: Vec<Field>) -> (r: FieldReader)
        ensures
            r.wf(),
            r@ == fields@.map_values(|f: Field| f@),
    {
        let r = FieldReader { fields, next: 0 };
        assert(r@ =~= fields@.map_values(|f: Field| f@));
        r
    }

    /// How many fields are still to be read.
    pub fn remaining(&self) -> (r: usize)
        requires
            self.wf(),
        ensures
            r == self@.len(),
    {
        self.fields.len() - self.next
    }

    /// Reads a number. Where the next field is none, it stays unread.
    pub fn get_u32(&mut self) -> (r: Result<u32, MessageError>)
        requires
            old(self).wf(),
        ensures
            final(self).wf(),
            r == read_u32(old(self)@),
            final(self)@ == (if r is Ok {
                old(self)@.drop_first()
            } else {
                old(self)@
            }),
    {
        if self.next >= self.fields.len() {
            return Err(MessageError::EndOfInput);
        }
        assert(self@[0] == self.fields@[self.next as int]@);
        match &self.fields[self.next] {
            Field::U32(n) => {
                let n = *n;
                self.next = self.next + 1;
                assert(self@ =~= old(self)@.drop_first());
                Ok(n)
            },
            Field::Bytes(_) => Err(MessageError::UnexpectedField),
        }
    }

    /// Reads a byte string of at most `limit` bytes. Where the next field
    /// is none, or a longer one, it stays unread.
    pub fn get_bytes(&mut self, limit: usize) -> (r: Result<Vec<u8>, MessageError>)
        requires
            old(self).wf(),
        ensures
            final(self).wf(),
            match read_bytes(old(self)@, limit) {
                Ok(bytes) => r matches Ok(got) && got@ == bytes,
                Err(error) => r == Err::<Vec<u8>, MessageError>(error),
            },
            final(self)@ == (if r is Ok {
                old(self)@.drop_first()
            } else {
                old(self)@
            }),
    {
        if self.next >= self.fields.len() {
            return Err(MessageError::EndOfInput);
        }
        assert(self@[0] == self.fields@[self.next as int]@);
        match &self.fields[self.next] {
            Field::U32(_) => Err(MessageError::UnexpectedField),
            Field::Bytes(bytes) => {
                if bytes.len() <= limit {
                    let got = bytes.clone();
                    self.next = self.next + 1;
                    assert(self@ =~= old(self)@.drop_first());
                    Ok(got)
                } else {
                    Err(MessageError::TooLong)
                }
            },
        }
    }
}

/// The versions that a hello holds, as read from the front of `fields`: the
/// known ones among those that the number names. A hello is refused only
/// where no number can be read.
pub open spec fn spec_unpack_hello(fields: Seq<FieldModel>) -> Result<u32, MessageError> {
    match read_u32(fields) {
        Ok(bits) => Ok(bits & KNOWN_BITS),
        Err(error) => Err(error),
    }
}

/// The nonce that a challenge holds, as read from the front of `fields`.
pub open spec fn spec_unpack_challenge(fields: Seq<FieldModel>) -> Result<Seq<u8>, MessageError> {
    match read_bytes(fields, NONCE_LEN) {
        Ok(bytes) => if bytes.len() == NONCE_LEN {
            Ok(bytes)
        } else {
            Err(MessageError::InvalidNonce)
        },
        Err(error) => Err(error),
    }
}

/// The certificate that a signature message holds, as read from the front
/// of `fields`.
pub open spec fn spec_unpack_signature(fields: Seq<FieldModel>) -> Result<Seq<u8>, MessageError> {
    read_bytes(fields, usize::MAX)
}

/// The request type that a request holds, as read from the front of
/// `fields`.
pub open spec fn spec_unpack_request(fields: Seq<FieldModel>) -> Result<
    V1RequestType,
    MessageError,
> {
    match read_u32(fields) {
        Ok(n) => match V1RequestType::spec_from_u32(n) {
            Some(request_type) => Ok(request_type),
            None => Err(MessageError::InvalidRequestType),
        },
        Err(error) => Err(error),
    }
}

/// The result type that a result holds, as read from the front of `fields`.
pub open spec fn spec_unpack_result(fields: Seq<FieldModel>) -> Result<V1ResultType, MessageError> {
    match read_u32(fields) {
        Ok(n) => match V1ResultType::spec_from_u32(n) {
            Some(result_type) => Ok(result_type),
            None => Err(MessageError::InvalidResultType),
        },
        Err(error) => Err(error),
    }
}

impl HelloMessage {
    /// Writes the message: its versions as one number.
    pub fn pack(writer: &mut FieldWriter, value: &Self, _depth: u32) -> (r: Result<
        (),
        MessageError,
    >)
        ensures
            r is Ok,
            final(writer)@ == old(writer)@.push(FieldModel::U32(value.version@)),
    {
        writer.put_u32(value.version.bits());
        Ok(())
    }

    /// Reads the message. Versions that this node does not know are left
    /// out of the set; they are no reason to refuse the hello.
    pub fn unpack(reader: &mut FieldReader, _depth: u32) -> (r: Result<Self, MessageError>)
        requires
            old(reader).wf(),
        ensures
            final(reader).wf(),
            match spec_unpack_hello(old(reader)@) {
                Ok(bits) => r matches Ok(message) && message.version@ == bits,
                Err(error) => r == Err::<Self, MessageError>(error),
            },
            final(reader)@ == (if read_u32(old(reader)@) is Ok {
                old(reader)@.drop_first()
            } else {
                old(reader)@
            }),
    {
        match reader.get_u32() {
            Ok(bits) => Ok(HelloMessage { version: SessionVersion::from_bits_truncate(bits) }),
            Err(error) => Err(error),
        }
    }
}

impl V1ChallengeMessage {
    /// Writes the message: its nonce as one byte string.
    pub fn pack(writer: &mut FieldWriter, value: &Self, _depth: u32) -> (r: Result<
        (),
        MessageError,
    >)
        ensures
            r is Ok,
            final(writer)@ == old(writer)@.push(FieldModel::Bytes(value.nonce@)),
    {
        writer.put_bytes(value.nonce.as_slice());
        Ok(())
    }

    /// Reads the message. A byte string of another length than 32 is refused.
    pub fn unpack(reader: &mut FieldReader, _depth: u32) -> (r: Result<Self, MessageError>)
        requires
            old(reader).wf(),
        ensures
            final(reader).wf(),
            match spec_unpack_challenge(old(reader)@) {
                Ok(nonce) => r matches Ok(message) && message.nonce@ == nonce,
                Err(error) => r == Err::<Self, MessageError>(error),
            },
            final(reader)@ == (if read_bytes(old(reader)@, NONCE_LEN) is Ok {
                old(reader)@.drop_first()
            } else {
                old(reader)@
            }),
    {
        match reader.get_bytes(NONCE_LEN) {
            Ok(bytes) => match nonce_from_bytes(&bytes) {
                Some(nonce) => Ok(V1ChallengeMessage { nonce }),
                None => Err(MessageError::InvalidNonce),
            },
            Err(error) => Err(error),
        }
    }
}

impl V1SignatureMessage {
    /// Writes the message: its certificate as one byte string.
    pub fn pack(writer: &mut FieldWriter, value: &Self, _depth: u32) -> (r: Result<
        (),
        MessageError,
    >)
        ensures
            r is Ok,
            final(writer)@ == old(writer)@.push(FieldModel::Bytes(value.cert@)),
    {
        writer.put_bytes(value.cert.value.as_slice());
        Ok(())
    }

    /// Reads the message.
    pub fn unpack(reader: &mut FieldReader, _depth: u32) -> (r: Result<Self, MessageError>)
        requires
            old(reader).wf(),
        ensures
            final(reader).wf(),
            match spec_unpack_signature(old(reader)@) {
                Ok(cert) => r matches Ok(message) && message.cert@ == cert,
                Err(error) => r == Err::<Self, MessageError>(error),
            },
            final(reader)@ == (if read_bytes(old(reader)@, usize::MAX) is Ok {
                old(reader)@.drop_first()
            } else {
                old(reader)@
            }),
    {
        match reader.get_bytes(usize::MAX) {
            Ok(bytes) => Ok(V1SignatureMessage { cert: OmniCert::new(bytes) }),
            Err(error) => Err(error),
        }
    }
}

impl V1RequestMessage {
    /// Writes the message: the number of its request type.
    pub fn pack(writer: &mut FieldWriter, value: &Self, _depth: u32) -> (r: Result<
        (),
        MessageError,
    >)
        ensures
            r is Ok,
            final(writer)@ == old(writer)@.push(FieldModel::U32(value.request_type.spec_to_u32())),
    {
        match value.request_type.to_u32() {
            Some(n) => {
                writer.put_u32(n);
                Ok(())
            },
            None => Err(MessageError::InvalidRequestType),
        }
    }

    /// Reads the message. A number that stands for no request type is
    /// refused.
    pub fn unpack(reader: &mut FieldReader, _depth: u32) -> (r: Result<Self, MessageError>)
        requires
            old(reader).wf(),
        ensures
            final(reader).wf(),
            match spec_unpack_request(old(reader)@) {
                Ok(request_type) => r == Ok::<Self, MessageError>(
                    V1RequestMessage { request_type },
                ),
                Err(error) => r == Err::<Self, MessageError>(error),
            },
            final(reader)@ == (if read_u32(old(reader)@) is Ok {
                old(reader)@.drop_first()
            } else {
                old(reader)@
            }),
    {
        match reader.get_u32() {
            Ok(n) => match V1RequestType::from_u32(n) {
                Some(request_type) => Ok(V1RequestMessage { request_type }),
                None => Err(MessageError::InvalidRequestType),
            },
            Err(error) => Err(error),
        }
    }
}

impl V1ResultMessage {
    /// Writes the message: the number of its result type.
    pub fn pack(writer: &mut FieldWriter, value: &Self, _depth: u32) -> (r: Result<
        (),
        MessageError,
    >)
        ensures
            r is Ok,
            final(writer)@ == old(writer)@.push(FieldModel::U32(value.result_type.spec_to_u32())),
    {
        match value.result_type.to_u32() {
            Some(n) => {
                writer.put_u32(n);
                Ok(())
            },
            None => Err(MessageError::InvalidResultType),
        }
    }

    /// Reads the message. A number that stands for no result type is refused.
    pub fn unpack(reader: &mut FieldReader, _depth: u32) -> (r: Result<Self, MessageError>)
        requires
            old(reader).wf(),
        ensures
            final(reader).wf(),
            match spec_unpack_result(old(reader)@) {
                Ok(result_type) => r == Ok::<Self, MessageError>(V1ResultMessage { result_type }),
                Err(error) => r == Err::<Self, MessageError>(error),
            },
            final(reader)@ == (if read_u32(old(reader)@) is Ok {
                old(reader)@.drop_first()
            } else {
                old(reader)@
            }),
    {
        match reader.get_u32() {
            Ok(n) => match V1ResultType::from_u32(n) {
                Some(result_type) => Ok(V1ResultMessage { result_type }),
                None => Err(MessageError::InvalidResultType),
            },
            Err(error) => Err(error),
        }
    }
}

/// What is written is read back: each message is read from the field that
/// its `pack` puts, whatever fields follow.
pub proof fn lemma_pack_unpack_round_trip(
    bits: u32,
    nonce: Seq<u8>,
    cert: Seq<u8>,
    request_type: V1RequestType,
    result_type: V1ResultType,
    rest: Seq<FieldModel>,
)
    requires
        known(bits),
        nonce.len() == NONCE_LEN,
        cert.len() <= usize::MAX,
    ensures
        spec_unpack_hello(seq![FieldModel::U32(bits)] + rest) == Ok::<u32, MessageError>(bits),
        spec_unpack_challenge(seq![FieldModel::Bytes(nonce)] + rest) == Ok::<
            Seq<u8>,
            MessageError,
        >(nonce),
        spec_unpack_signature(seq![FieldModel::Bytes(cert)] + rest) == Ok::<Seq<u8>, MessageError>(
            cert,
        ),
        spec_unpack_request(seq![FieldModel::U32(request_type.spec_to_u32())] + rest) == Ok::<
            V1RequestType,
            MessageError,
        >(request_type),
        spec_unpack_result(seq![FieldModel::U32(result_type.spec_to_u32())] + rest) == Ok::<
            V1ResultType,
            MessageError,
        >(result_type),
{
    lemma_unknown_versions_play_no_part(bits, bits);
}

} // verus!
