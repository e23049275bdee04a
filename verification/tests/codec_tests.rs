use lts_ingest::codec::{DecodeError, IngestSession, WsMessage};
use lts_ingest::records::{GeneralRecord, RemoteCommand, StatRecord};

fn rec(n: u64) -> StatRecord {
    StatRecord { timestamp: n, entity: n * 2, down: n * 3, up: n * 4 }
}

fn sample_session() -> IngestSession {
    IngestSession {
        license_key: 0x0123_4567_89ab_cdef_0011_2233_4455_6677u128,
        node_id: b"node-7".to_vec(),
        node_name: "Edge Router \u{1F980}".as_bytes().to_vec(),
        general: vec![GeneralRecord { data: vec![] }, GeneralRecord { data: vec![0, 255, 7] }],
        circuit_throughput: vec![rec(1), rec(2)],
        circuit_retransmits: vec![rec(3)],
        circuit_rtt: vec![],
        circuit_cake_drops: vec![rec(4)],
        circuit_cake_marks: vec![],
        site_throughput: vec![rec(5)],
        site_retransmits: vec![],
        site_rtt: vec![rec(6), rec(7), rec(8)],
        site_cake_drops: vec![],
        site_cake_marks: vec![rec(9)],
    }
}

fn round_trip(m: WsMessage) {
    let (raw_len, compressed_len, frame) = m.to_bytes();
    assert_eq!(compressed_len, frame.len());
    assert!(raw_len > 0);
    let back = WsMessage::from_bytes(&frame).expect("frame must decode");
    assert_eq!(back, m);
}

#[test]
fn round_trip_hello() {
    round_trip(WsMessage::Hello { magic: 0x2763 });
    round_trip(WsMessage::Hello { magic: 0 });
    round_trip(WsMessage::Hello { magic: u32::MAX });
}

#[test]
fn round_trip_license() {
    round_trip(WsMessage::License { license: 0 });
    round_trip(WsMessage::License { license: u128::MAX });
    round_trip(WsMessage::License { license: 0x67e5_5044_10b1_426f_9247_bb68_0e5f_e0c8 });
}

#[test]
fn round_trip_data_dump() {
    round_trip(WsMessage::DataDump { data: sample_session() });
}

#[test]
fn round_trip_request_remote_commands() {
    round_trip(WsMessage::RequestRemoteCommands { node_id: vec![] });
    round_trip(WsMessage::RequestRemoteCommands { node_id: b"node-7".to_vec() });
}

#[test]
fn round_trip_can_submit() {
    round_trip(WsMessage::CanSubmit);
}

#[test]
fn round_trip_remote_commands() {
    round_trip(WsMessage::RemoteCommands { commands: vec![] });
    round_trip(WsMessage::RemoteCommands {
        commands: vec![
            RemoteCommand { data: b"reload".to_vec() },
            RemoteCommand { data: vec![] },
            RemoteCommand { data: vec![1, 2, 3, 4, 5] },
        ],
    });
}

#[test]
fn frames_are_really_compressed() {
    // A payload with long runs must shrink; and the frame bytes must differ
    // from the serialized message, so decoding the raw serialization fails.
    let m = WsMessage::RequestRemoteCommands { node_id: vec![b'a'; 4096] };
    let (raw_len, compressed_len, _frame) = m.to_bytes();
    assert!(compressed_len < raw_len);
}

#[test]
fn corrupt_stream_gives_decompress_error() {
    assert_eq!(WsMessage::from_bytes(&[]), Err(DecodeError::Decompress));
    assert_eq!(WsMessage::from_bytes(&[0x13, 0x37, 0xff]), Err(DecodeError::Decompress));
}

#[test]
fn unrecognized_tag_gives_malformed_error() {
    let bogus = miniz_oxide::deflate::compress_to_vec(&[99u8, 0, 0, 0, 0], 10);
    assert_eq!(WsMessage::from_bytes(&bogus), Err(DecodeError::Malformed));
}

#[test]
fn truncated_payload_gives_malformed_error() {
    // A Hello frame's payload is the tag and four magic bytes; cut one off.
    let truncated = miniz_oxide::deflate::compress_to_vec(&[0u8, 0x63, 0x27, 0x00], 10);
    assert_eq!(WsMessage::from_bytes(&truncated), Err(DecodeError::Malformed));
}

#[test]
fn trailing_bytes_give_malformed_error() {
    let padded = miniz_oxide::deflate::compress_to_vec(&[4u8, 0], 10);
    assert_eq!(WsMessage::from_bytes(&padded), Err(DecodeError::Malformed));
}

#[test]
fn can_submit_frame_is_the_compressed_tag() {
    // The uncompressed form of CanSubmit is exactly its tag byte.
    let (raw_len, _, frame) = WsMessage::CanSubmit.to_bytes();
    assert_eq!(raw_len, 1);
    let raw = miniz_oxide::inflate::decompress_to_vec(&frame).expect("valid stream");
    assert_eq!(raw, vec![4u8]);
}

#[test]
fn hello_wire_form_is_tag_then_little_endian_magic() {
    let (raw_len, _, frame) = (WsMessage::Hello { magic: 0x2763 }).to_bytes();
    assert_eq!(raw_len, 5);
    let raw = miniz_oxide::inflate::decompress_to_vec(&frame).expect("valid stream");
    assert_eq!(raw, vec![0u8, 0x63, 0x27, 0x00, 0x00]);
}

#[test]
fn round_trip_helper_reproduces_the_message() {
    let m = WsMessage::DataDump { data: sample_session() };
    assert_eq!(lts_ingest::codec::round_trip(&m), m);
    let m = WsMessage::RemoteCommands {
        commands: vec![RemoteCommand { data: b"probe".to_vec() }],
    };
    assert_eq!(lts_ingest::codec::round_trip(&m), m);
}
