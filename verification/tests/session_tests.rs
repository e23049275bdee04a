use lts_ingest::codec::WsMessage;
use lts_ingest::records::{IngestorCommand, StatRecord};
use lts_ingest::session::{
    session_step, ReportConfig, SessionAction, SessionEvent, SessionState, CLIENT_MAGIC,
    SERVER_MAGIC,
};
use lts_ingest::store::MessageQueue;

fn rec(n: u64) -> StatRecord {
    StatRecord { timestamp: n, entity: n + 100, down: n + 200, up: n + 300 }
}

fn config(enabled: bool) -> ReportConfig {
    ReportConfig {
        use_insight: enabled,
        license_key: "67e55044-10b1-426f-9247-bb680e5fe0c8".to_string(),
        node_id: "node-1".to_string(),
        node_name: "Node One".to_string(),
        remote_host: "collector.example".to_string(),
    }
}

fn seeded_queue() -> MessageQueue {
    let mut q = MessageQueue::new();
    q.ingest(IngestorCommand::CircuitThroughputBatch(vec![rec(1), rec(2)]));
    q.ingest(IngestorCommand::SiteRttBatch(vec![rec(3)]));
    q
}

/// Drives the machine through the happy path up to the CanSubmit reply and
/// returns the state from which the DataDump frame is about to be sent,
/// together with that frame.
fn run_until_data_dump(q: &mut MessageQueue) -> (SessionState, Vec<u8>) {
    let (st, act) = session_step(q, SessionState::Start, SessionEvent::ConfigRead(config(true)));
    match &act {
        SessionAction::Connect(host) => assert_eq!(host, "collector.example"),
        other => panic!("expected a connect action, got {:?}", other),
    }
    let (st, act) = session_step(q, st, SessionEvent::ConnectOk);
    match &act {
        SessionAction::SendFrame(frame) => {
            assert_eq!(
                WsMessage::from_bytes(frame),
                Ok(WsMessage::Hello { magic: CLIENT_MAGIC })
            );
        },
        other => panic!("expected the client hello, got {:?}", other),
    }
    let (st, act) = session_step(q, st, SessionEvent::SendOk);
    assert_eq!(act, SessionAction::ReadFrame);
    let reply = (WsMessage::Hello { magic: SERVER_MAGIC }).to_bytes().2;
    let (st, act) = session_step(q, st, SessionEvent::FrameReceived(reply));
    assert_eq!(act, SessionAction::ReadConfig);
    let (st, act) = session_step(q, st, SessionEvent::ConfigRead(config(true)));
    match &act {
        SessionAction::SendFrame(frame) => match WsMessage::from_bytes(frame) {
            Ok(WsMessage::License { license }) => {
                assert_eq!(license, 0x67e5_5044_10b1_426f_9247_bb68_0e5f_e0c8u128);
            },
            other => panic!("expected the license frame, got {:?}", other),
        },
        other => panic!("expected a send action, got {:?}", other),
    }
    assert!(!q.is_empty(), "nothing is drained before CanSubmit");
    let (st, act) = session_step(q, st, SessionEvent::SendOk);
    assert_eq!(act, SessionAction::ReadFrame);
    let reply = WsMessage::CanSubmit.to_bytes().2;
    let (st, act) = session_step(q, st, SessionEvent::FrameReceived(reply));
    match act {
        SessionAction::SendFrame(frame) => (st, frame),
        other => panic!("expected the data dump send, got {:?}", other),
    }
}

#[test]
fn disabled_reporting_clears_store_without_transport() {
    let mut q = seeded_queue();
    let (st, act) = session_step(&mut q, SessionState::Start, SessionEvent::ConfigRead(
        config(false),
    ));
    assert_eq!(st, SessionState::Done);
    assert_eq!(act, SessionAction::Finish);
    assert!(q.is_empty());
}

#[test]
fn disabled_reporting_on_empty_store_is_a_no_op() {
    let mut q = MessageQueue::new();
    let (st, act) = session_step(&mut q, SessionState::Start, SessionEvent::ConfigRead(
        config(false),
    ));
    assert_eq!(st, SessionState::Done);
    assert_eq!(act, SessionAction::Finish);
    assert!(q.is_empty());
}

#[test]
fn connect_failure_preserves_store_exactly() {
    let mut q = seeded_queue();
    let (st, _) = session_step(&mut q, SessionState::Start, SessionEvent::ConfigRead(config(
        true,
    )));
    let (st, act) = session_step(&mut q, st, SessionEvent::ConnectFailed);
    assert_eq!(st, SessionState::Aborted);
    assert_eq!(act, SessionAction::Finish);
    assert_eq!(q.circuit_throughput, vec![rec(1), rec(2)]);
    assert_eq!(q.site_rtt, vec![rec(3)]);
}

#[test]
fn data_dump_send_failure_still_loses_the_batch() {
    let mut q = seeded_queue();
    let (st, _frame) = run_until_data_dump(&mut q);
    assert!(q.is_empty(), "the drain happens before the send");
    let (st, act) = session_step(&mut q, st, SessionEvent::SendFailed);
    assert_eq!(st, SessionState::Aborted);
    assert_eq!(act, SessionAction::Finish);
    assert!(q.is_empty(), "the drained batch is gone for good");
}

#[test]
fn full_cycle_sends_one_data_dump_and_delivers_empty_commands() {
    let mut q = seeded_queue();
    let (st, dump_frame) = run_until_data_dump(&mut q);
    assert!(q.is_empty());
    match WsMessage::from_bytes(&dump_frame) {
        Ok(WsMessage::DataDump { data }) => {
            assert_eq!(data.license_key, 0x67e5_5044_10b1_426f_9247_bb68_0e5f_e0c8u128);
            assert_eq!(data.node_id, b"node-1".to_vec());
            assert_eq!(data.node_name, b"Node One".to_vec());
            assert_eq!(data.circuit_throughput, vec![rec(1), rec(2)]);
            assert_eq!(data.site_rtt, vec![rec(3)]);
            assert!(data.general.is_empty());
            assert!(data.circuit_retransmits.is_empty());
            assert!(data.circuit_rtt.is_empty());
            assert!(data.circuit_cake_drops.is_empty());
            assert!(data.circuit_cake_marks.is_empty());
            assert!(data.site_throughput.is_empty());
            assert!(data.site_retransmits.is_empty());
            assert!(data.site_cake_drops.is_empty());
            assert!(data.site_cake_marks.is_empty());
        },
        other => panic!("expected the data dump, got {:?}", other),
    }
    let (st, act) = session_step(&mut q, st, SessionEvent::SendOk);
    match &act {
        SessionAction::SendFrame(frame) => {
            assert_eq!(
                WsMessage::from_bytes(frame),
                Ok(WsMessage::RequestRemoteCommands { node_id: b"node-1".to_vec() })
            );
        },
        other => panic!("expected the command request, got {:?}", other),
    }
    let (st, act) = session_step(&mut q, st, SessionEvent::SendOk);
    assert_eq!(act, SessionAction::ReadFrame);
    let reply = (WsMessage::RemoteCommands { commands: vec![] }).to_bytes().2;
    let (st, act) = session_step(&mut q, st, SessionEvent::FrameReceived(reply));
    assert_eq!(st, SessionState::Done);
    match act {
        SessionAction::DeliverCommands(commands) => assert!(commands.is_empty()),
        other => panic!("expected the command hand-off, got {:?}", other),
    }
    assert!(q.is_empty());
}

#[test]
fn wrong_server_magic_aborts_before_license() {
    let mut q = seeded_queue();
    let (st, _) = session_step(&mut q, SessionState::Start, SessionEvent::ConfigRead(config(
        true,
    )));
    let (st, _) = session_step(&mut q, st, SessionEvent::ConnectOk);
    let (st, act) = session_step(&mut q, st, SessionEvent::SendOk);
    assert_eq!(act, SessionAction::ReadFrame);
    let reply = (WsMessage::Hello { magic: 0x9999 }).to_bytes().2;
    let (st, act) = session_step(&mut q, st, SessionEvent::FrameReceived(reply));
    assert_eq!(st, SessionState::Aborted);
    assert_eq!(act, SessionAction::Finish);
    assert_eq!(q.circuit_throughput, vec![rec(1), rec(2)]);
    assert_eq!(q.site_rtt, vec![rec(3)]);
}

#[test]
fn unexpected_variant_instead_of_can_submit_aborts_without_drain() {
    let mut q = seeded_queue();
    let (st, _) = session_step(&mut q, SessionState::Start, SessionEvent::ConfigRead(config(
        true,
    )));
    let (st, _) = session_step(&mut q, st, SessionEvent::ConnectOk);
    let (st, _) = session_step(&mut q, st, SessionEvent::SendOk);
    let reply = (WsMessage::Hello { magic: SERVER_MAGIC }).to_bytes().2;
    let (st, _) = session_step(&mut q, st, SessionEvent::FrameReceived(reply));
    let (st, _) = session_step(&mut q, st, SessionEvent::ConfigRead(config(true)));
    let (st, _) = session_step(&mut q, st, SessionEvent::SendOk);
    let reply = (WsMessage::Hello { magic: SERVER_MAGIC }).to_bytes().2;
    let (st, act) = session_step(&mut q, st, SessionEvent::FrameReceived(reply));
    assert_eq!(st, SessionState::Aborted);
    assert_eq!(act, SessionAction::Finish);
    assert!(!q.is_empty(), "nothing was drained");
}

#[test]
fn malformed_license_aborts_before_any_send() {
    let mut q = seeded_queue();
    let (st, _) = session_step(&mut q, SessionState::Start, SessionEvent::ConfigRead(config(
        true,
    )));
    let (st, _) = session_step(&mut q, st, SessionEvent::ConnectOk);
    let (st, _) = session_step(&mut q, st, SessionEvent::SendOk);
    let reply = (WsMessage::Hello { magic: SERVER_MAGIC }).to_bytes().2;
    let (st, _) = session_step(&mut q, st, SessionEvent::FrameReceived(reply));
    let mut bad = config(true);
    bad.license_key = "not-a-license".to_string();
    let (st, act) = session_step(&mut q, st, SessionEvent::ConfigRead(bad));
    assert_eq!(st, SessionState::Aborted);
    assert_eq!(act, SessionAction::Finish);
    assert!(!q.is_empty());
}

#[test]
fn read_failure_mid_handshake_aborts_and_preserves_store() {
    let mut q = seeded_queue();
    let (st, _) = session_step(&mut q, SessionState::Start, SessionEvent::ConfigRead(config(
        true,
    )));
    let (st, _) = session_step(&mut q, st, SessionEvent::ConnectOk);
    let (st, _) = session_step(&mut q, st, SessionEvent::SendOk);
    let (st, act) = session_step(&mut q, st, SessionEvent::ReadFailed);
    assert_eq!(st, SessionState::Aborted);
    assert_eq!(act, SessionAction::Finish);
    assert!(!q.is_empty());
}
