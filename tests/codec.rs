use transporter::codec::{
    encode_beam_id, encode_chunk, encode_chunks, encode_mtime, encode_reply, encode_start_file, encode_tag,
    encode_version,
};
use transporter::error::{SenderError, TransporterError};
use transporter::messages::{ClientMessages, ProtocolVersion, ServerMessages};
use transporter::sender::{session_end, session_preamble, SENDER_VERSION};

#[test]
fn client_message_codes_round_trip() {
    let all = [
        ClientMessages::BeamComplete,
        ClientMessages::StartBeamingFile,
        ClientMessages::FileChunk,
        ClientMessages::FileDone,
        ClientMessages::ProtocolVersion,
    ];
    for (i, m) in all.iter().enumerate() {
        assert_eq!(m.to_u8(), i as u8);
        assert_eq!(ClientMessages::from_u8(i as u8).unwrap(), *m);
    }
}

#[test]
fn unknown_client_message_code_is_an_error() {
    match ClientMessages::from_u8(5) {
        Err(TransporterError::InvalidClientMessageCode(5)) => (),
        other => panic!("unexpected {:?}", other),
    }
    assert!(ClientMessages::from_u8(255).is_err());
}

#[test]
fn server_message_codes_round_trip() {
    for m in [ServerMessages::SkipFile, ServerMessages::BeamFile, ServerMessages::FileBeamed] {
        assert_eq!(ServerMessages::from_u8(m.to_u8()).unwrap(), m);
    }
    assert_eq!(ServerMessages::SkipFile.to_u8(), 0);
    assert_eq!(ServerMessages::BeamFile.to_u8(), 1);
    assert_eq!(ServerMessages::FileBeamed.to_u8(), 2);
    assert_eq!(ServerMessages::BeamFile.to_string(), "BeamFile");
}

#[test]
fn unknown_server_message_code_is_an_error() {
    match ServerMessages::from_u8(3) {
        Err(SenderError::InvalidServerMessageCode(3)) => (),
        other => panic!("unexpected {:?}", other),
    }
}

#[test]
fn protocol_versions() {
    assert_eq!(ProtocolVersion::from_u16(1).unwrap(), ProtocolVersion::V1);
    assert_eq!(ProtocolVersion::from_u16(2).unwrap(), ProtocolVersion::V2);
    match ProtocolVersion::from_u16(3) {
        Err(TransporterError::InvalidProtocolVersion(3)) => (),
        other => panic!("unexpected {:?}", other),
    }
    assert!(ProtocolVersion::from_u16(0).is_err());
    assert!(!ProtocolVersion::V1.supports_mtime());
    assert!(ProtocolVersion::V2.supports_mtime());
    assert_eq!(ProtocolVersion::V2.to_u16(), 2);
}

#[test]
fn frames_are_big_endian() {
    assert_eq!(encode_beam_id(0x0102030405060708), vec![1, 2, 3, 4, 5, 6, 7, 8]);
    assert_eq!(encode_mtime(1), vec![0, 0, 0, 0, 0, 0, 0, 1]);
    assert_eq!(encode_version(ProtocolVersion::V2), vec![4, 0, 2]);
    assert_eq!(encode_start_file(b"ab"), vec![1, 0, 2, b'a', b'b']);
    assert_eq!(encode_chunk(&[9, 8, 7]), vec![2, 0, 0, 0, 3, 9, 8, 7]);
    assert_eq!(encode_chunk(&[]), vec![2, 0, 0, 0, 0]);
    assert_eq!(encode_tag(ClientMessages::FileDone), vec![3]);
    assert_eq!(encode_reply(ServerMessages::FileBeamed), vec![2]);
}

#[test]
fn long_name_length_field() {
    let name = vec![b'x'; 300];
    let frame = encode_start_file(&name);
    assert_eq!(&frame[..3], &[1, 1, 44]);
    assert_eq!(frame.len(), 303);
}

#[test]
fn session_frames() {
    assert_eq!(
        session_preamble(7, SENDER_VERSION),
        vec![0, 0, 0, 0, 0, 0, 0, 7, 4, 0, 2]
    );
    assert_eq!(session_end(), vec![0]);
}

#[test]
fn small_payload_is_one_chunk_frame() {
    assert_eq!(encode_chunks(&[5, 6]), vec![2, 0, 0, 0, 2, 5, 6]);
    assert_eq!(encode_chunks(&[]), vec![2, 0, 0, 0, 0]);
}
