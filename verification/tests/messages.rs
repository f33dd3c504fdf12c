use peer_session::message::{
    Field, FieldReader, FieldWriter, HelloMessage, MessageError, V1ChallengeMessage,
    V1RequestMessage, V1RequestType, V1ResultMessage, V1ResultType, V1SignatureMessage, NONCE_LEN,
};
use peer_session::model::OmniCert;
use peer_session::version::SessionVersion;

fn reader_over(fields: Vec<Field>) -> FieldReader {
    FieldReader::new(fields)
}

#[test]
fn request_type_numbers() {
    assert_eq!(V1RequestType::Unknown.to_u32(), Some(0));
    assert_eq!(V1RequestType::NodeExchanger.to_u32(), Some(1));
    assert_eq!(V1RequestType::from_u32(0), Some(V1RequestType::Unknown));
    assert_eq!(V1RequestType::from_u32(1), Some(V1RequestType::NodeExchanger));
    assert_eq!(V1RequestType::from_u32(2), None);
    assert_eq!(V1RequestType::from_u32(u32::MAX), None);
}

#[test]
fn result_type_numbers() {
    assert_eq!(V1ResultType::Unknown.to_u32(), Some(0));
    assert_eq!(V1ResultType::Accept.to_u32(), Some(1));
    assert_eq!(V1ResultType::Reject.to_u32(), Some(2));
    assert_eq!(V1ResultType::from_u32(0), Some(V1ResultType::Unknown));
    assert_eq!(V1ResultType::from_u32(1), Some(V1ResultType::Accept));
    assert_eq!(V1ResultType::from_u32(2), Some(V1ResultType::Reject));
    assert_eq!(V1ResultType::from_u32(3), None);
}

#[test]
fn nonce_is_32_bytes() {
    assert_eq!(NONCE_LEN, 32);
}

#[test]
fn hello_round_trip() {
    let mut writer = FieldWriter::new();
    let message = HelloMessage { version: SessionVersion::v1() };
    assert_eq!(HelloMessage::pack(&mut writer, &message, 0), Ok(()));
    let fields = writer.into_fields();
    assert_eq!(fields.len(), 1);
    assert!(matches!(fields[0], Field::U32(1)));
    let mut reader = reader_over(fields);
    assert_eq!(HelloMessage::unpack(&mut reader, 0), Ok(message));
    assert_eq!(reader.remaining(), 0);
}

#[test]
fn hello_with_an_unknown_version_is_read() {
    // Version 1 and a version that this node does not know.
    let mut reader = reader_over(vec![Field::U32(3)]);
    let hello = HelloMessage::unpack(&mut reader, 0).unwrap();
    assert!(hello.version.contains(SessionVersion::v1()));
    assert_eq!(hello.version, SessionVersion::v1());
    assert_eq!(reader.remaining(), 0);

    let mut reader = reader_over(vec![Field::U32(u32::MAX)]);
    assert_eq!(HelloMessage::unpack(&mut reader, 0), Ok(HelloMessage { version: SessionVersion::v1() }));
}

#[test]
fn hello_with_unknown_versions_only_holds_none() {
    let mut reader = reader_over(vec![Field::U32(2)]);
    assert_eq!(HelloMessage::unpack(&mut reader, 0), Ok(HelloMessage { version: SessionVersion::empty() }));
    let mut reader = reader_over(vec![Field::U32(0)]);
    assert_eq!(HelloMessage::unpack(&mut reader, 0), Ok(HelloMessage { version: SessionVersion::empty() }));
}

#[test]
fn hello_from_nothing_is_end_of_input() {
    let mut reader = reader_over(Vec::new());
    assert_eq!(HelloMessage::unpack(&mut reader, 0), Err(MessageError::EndOfInput));
}

#[test]
fn hello_from_bytes_is_unexpected_field() {
    let mut reader = reader_over(vec![Field::Bytes(vec![1, 2, 3])]);
    assert_eq!(HelloMessage::unpack(&mut reader, 0), Err(MessageError::UnexpectedField));
    assert_eq!(reader.remaining(), 1);
}

#[test]
fn challenge_round_trip() {
    let mut nonce = [0u8; 32];
    for (i, b) in nonce.iter_mut().enumerate() {
        *b = i as u8 + 1;
    }
    let message = V1ChallengeMessage { nonce };
    let mut writer = FieldWriter::new();
    assert_eq!(V1ChallengeMessage::pack(&mut writer, &message, 0), Ok(()));
    let fields = writer.into_fields();
    assert!(matches!(&fields[0], Field::Bytes(b) if b.as_slice() == &nonce[..]));
    let mut reader = reader_over(fields);
    assert_eq!(V1ChallengeMessage::unpack(&mut reader, 0), Ok(message));
}

#[test]
fn challenge_with_short_nonce_is_refused() {
    let mut reader = reader_over(vec![Field::Bytes(vec![7; 31])]);
    assert_eq!(V1ChallengeMessage::unpack(&mut reader, 0), Err(MessageError::InvalidNonce));
}

#[test]
fn challenge_with_long_nonce_is_too_long() {
    let mut reader = reader_over(vec![Field::Bytes(vec![7; 33])]);
    assert_eq!(V1ChallengeMessage::unpack(&mut reader, 0), Err(MessageError::TooLong));
    assert_eq!(reader.remaining(), 1);
}

#[test]
fn signature_round_trip() {
    let message = V1SignatureMessage { cert: OmniCert::new(vec![9, 8, 7, 6]) };
    let mut writer = FieldWriter::new();
    assert_eq!(V1SignatureMessage::pack(&mut writer, &message, 0), Ok(()));
    let mut reader = reader_over(writer.into_fields());
    let read = V1SignatureMessage::unpack(&mut reader, 0).unwrap();
    assert_eq!(read.cert.value, vec![9, 8, 7, 6]);
}

#[test]
fn request_round_trip() {
    let message = V1RequestMessage { request_type: V1RequestType::NodeExchanger };
    let mut writer = FieldWriter::new();
    assert_eq!(V1RequestMessage::pack(&mut writer, &message, 0), Ok(()));
    let fields = writer.into_fields();
    assert!(matches!(fields[0], Field::U32(1)));
    let mut reader = reader_over(fields);
    assert_eq!(V1RequestMessage::unpack(&mut reader, 0), Ok(message));
}

#[test]
fn request_with_unknown_number_is_refused() {
    let mut reader = reader_over(vec![Field::U32(9)]);
    assert_eq!(V1RequestMessage::unpack(&mut reader, 0), Err(MessageError::InvalidRequestType));
}

#[test]
fn result_round_trip() {
    for (result_type, number) in [(V1ResultType::Accept, 1u32), (V1ResultType::Reject, 2u32)] {
        let message = V1ResultMessage { result_type };
        let mut writer = FieldWriter::new();
        assert_eq!(V1ResultMessage::pack(&mut writer, &message, 0), Ok(()));
        let fields = writer.into_fields();
        assert!(matches!(fields[0], Field::U32(n) if n == number));
        let mut reader = reader_over(fields);
        assert_eq!(V1ResultMessage::unpack(&mut reader, 0), Ok(message));
    }
}

#[test]
fn result_with_unknown_number_is_refused() {
    let mut reader = reader_over(vec![Field::U32(3)]);
    assert_eq!(V1ResultMessage::unpack(&mut reader, 0), Err(MessageError::InvalidResultType));
}

#[test]
fn fields_are_read_in_the_order_written() {
    let mut writer = FieldWriter::new();
    writer.put_u32(5);
    writer.put_bytes(&[1, 2]);
    writer.put_u32(6);
    let mut reader = reader_over(writer.into_fields());
    assert_eq!(reader.remaining(), 3);
    assert_eq!(reader.get_u32(), Ok(5));
    assert_eq!(reader.get_u32(), Err(MessageError::UnexpectedField));
    assert_eq!(reader.get_bytes(1), Err(MessageError::TooLong));
    assert_eq!(reader.get_bytes(2), Ok(vec![1, 2]));
    assert_eq!(reader.get_bytes(2), Err(MessageError::UnexpectedField));
    assert_eq!(reader.get_u32(), Ok(6));
    assert_eq!(reader.get_u32(), Err(MessageError::EndOfInput));
    assert_eq!(reader.get_bytes(8), Err(MessageError::EndOfInput));
}
