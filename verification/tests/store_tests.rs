use lts_ingest::records::{GeneralRecord, IngestorCommand, StatRecord};
use lts_ingest::store::MessageQueue;

fn rec(n: u64) -> StatRecord {
    StatRecord { timestamp: n, entity: n + 1, down: n + 2, up: n + 3 }
}

#[test]
fn new_store_is_empty() {
    let q = MessageQueue::new();
    assert!(q.is_empty());
}

#[test]
fn ingest_batch_lands_in_its_category_only() {
    let mut q = MessageQueue::new();
    q.ingest(IngestorCommand::CircuitThroughputBatch(vec![rec(1), rec(2)]));
    assert!(!q.is_empty());
    assert_eq!(q.circuit_throughput, vec![rec(1), rec(2)]);
    assert!(q.general_queue.is_empty());
    assert!(q.circuit_retransmits.is_empty());
    assert!(q.circuit_rtt.is_empty());
    assert!(q.circuit_cake_drops.is_empty());
    assert!(q.circuit_cake_marks.is_empty());
    assert!(q.site_throughput.is_empty());
    assert!(q.site_retransmits.is_empty());
    assert!(q.site_rtt.is_empty());
    assert!(q.site_cake_drops.is_empty());
    assert!(q.site_cake_marks.is_empty());
}

#[test]
fn ingest_appends_in_order() {
    let mut q = MessageQueue::new();
    q.ingest(IngestorCommand::SiteRttBatch(vec![rec(10)]));
    q.ingest(IngestorCommand::SiteRttBatch(vec![rec(20), rec(30)]));
    assert_eq!(q.site_rtt, vec![rec(10), rec(20), rec(30)]);
}

#[test]
fn every_category_counts_toward_is_empty() {
    let commands = vec![
        IngestorCommand::General(GeneralRecord { data: vec![1, 2, 3] }),
        IngestorCommand::CircuitThroughputBatch(vec![rec(1)]),
        IngestorCommand::CircuitRetransmitsBatch(vec![rec(2)]),
        IngestorCommand::CircuitRttBatch(vec![rec(3)]),
        IngestorCommand::CircuitCakeDropsBatch(vec![rec(4)]),
        IngestorCommand::CircuitCakeMarksBatch(vec![rec(5)]),
        IngestorCommand::SiteThroughputBatch(vec![rec(6)]),
        IngestorCommand::SiteRetransmitsBatch(vec![rec(7)]),
        IngestorCommand::SiteRttBatch(vec![rec(8)]),
        IngestorCommand::SiteCakeDropsBatch(vec![rec(9)]),
        IngestorCommand::SiteCakeMarksBatch(vec![rec(10)]),
    ];
    for command in commands {
        let mut q = MessageQueue::new();
        assert!(q.is_empty());
        q.ingest(command);
        assert!(!q.is_empty());
        q.clear();
        assert!(q.is_empty());
    }
}

#[test]
fn empty_batch_keeps_store_empty() {
    let mut q = MessageQueue::new();
    q.ingest(IngestorCommand::CircuitRttBatch(vec![]));
    assert!(q.is_empty());
}

#[test]
fn clear_discards_everything() {
    let mut q = MessageQueue::new();
    q.ingest(IngestorCommand::General(GeneralRecord { data: vec![9] }));
    q.ingest(IngestorCommand::SiteCakeMarksBatch(vec![rec(1), rec(2)]));
    q.clear();
    assert!(q.is_empty());
    assert!(q.general_queue.is_empty());
    assert!(q.site_cake_marks.is_empty());
}
