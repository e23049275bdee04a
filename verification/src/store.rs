//! The batch store: accumulates ingested records, one ordered sequence per
//! category, until the session protocol drains them.

use vstd::prelude::*;

use crate::records::{GeneralRecord, IngestorCommand, StatRecord};

verus! {

/// The mathematical contents of a [`MessageQueue`]: one sequence per
/// category — the untyped general category plus the ten statistic
/// categories.
pub ghost struct QueueModel {
    pub general: Seq<GeneralRecord>,
    pub circuit_throughput: Seq<StatRecord>,
    pub circuit_retransmits: Seq<StatRecord>,
    pub circuit_rtt: Seq<StatRecord>,
    pub circuit_cake_drops: Seq<StatRecord>,
    pub circuit_cake_marks: Seq<StatRecord>,
    pub site_throughput: Seq<StatRecord>,
    pub site_retransmits: Seq<StatRecord>,
    pub site_rtt: Seq<StatRecord>,
    pub site_cake_drops: Seq<StatRecord>,
    pub site_cake_marks: Seq<StatRecord>,
}

/// The model of a store with every category sequence empty.
pub open spec fn empty_queue() -> QueueModel {
    QueueModel {
        general: Seq::empty(),
        circuit_throughput: Seq::empty(),
        circuit_retransmits: Seq::empty(),
        circuit_rtt: Seq::empty(),
        circuit_cake_drops: Seq::empty(),
        circuit_cake_marks: Seq::empty(),
        site_throughput: Seq::empty(),
        site_retransmits: Seq::empty(),
        site_rtt: Seq::empty(),
        site_cake_drops: Seq::empty(),
        site_cake_marks: Seq::empty(),
    }
}

/// True iff every category sequence of the model is empty.
pub open spec fn queue_is_empty(q: QueueModel) -> bool {
    &&& q.general.len() == 0
    &&& q.circuit_throughput.len() == 0
    &&& q.circuit_retransmits.len() == 0
    &&& q.circuit_rtt.len() == 0
    &&& q.circuit_cake_drops.len() == 0
    &&& q.circuit_cake_marks.len() == 0
    &&& q.site_throughput.len() == 0
    &&& q.site_retransmits.len() == 0
    &&& q.site_rtt.len() == 0
    &&& q.site_cake_drops.len() == 0
    &&& q.site_cake_marks.len() == 0
}

/// What one ingest call does to the store's model: the command's tag alone
/// decides which category sequence receives the contents, and batches are
/// appended in order.
pub open spec fn spec_ingest(q: QueueModel, command: IngestorCommand) -> QueueModel {
    match command {
        IngestorCommand::General(g) => (QueueModel { general: q.general.push(g), ..q }),
        IngestorCommand::CircuitThroughputBatch(b) => (QueueModel {
            circuit_throughput: q.circuit_throughput + b@,
            ..q
        }),
        IngestorCommand::CircuitRetransmitsBatch(b) => (QueueModel {
            circuit_retransmits: q.circuit_retransmits + b@,
            ..q
        }),
        IngestorCommand::CircuitRttBatch(b) => (QueueModel { circuit_rtt: q.circuit_rtt + b@, ..q }),
        IngestorCommand::CircuitCakeDropsBatch(b) => (QueueModel {
            circuit_cake_drops: q.circuit_cake_drops + b@,
            ..q
        }),
        IngestorCommand::CircuitCakeMarksBatch(b) => (QueueModel {
            circuit_cake_marks: q.circuit_cake_marks + b@,
            ..q
        }),
        IngestorCommand::SiteThroughputBatch(b) => (QueueModel {
            site_throughput: q.site_throughput + b@,
            ..q
        }),
        IngestorCommand::SiteRetransmitsBatch(b) => (QueueModel {
            site_retransmits: q.site_retransmits + b@,
            ..q
        }),
        IngestorCommand::SiteRttBatch(b) => (QueueModel { site_rtt: q.site_rtt + b@, ..q }),
        IngestorCommand::SiteCakeDropsBatch(b) => (QueueModel {
            site_cake_drops: q.site_cake_drops + b@,
            ..q
        }),
        IngestorCommand::SiteCakeMarksBatch(b) => (QueueModel {
            site_cake_marks: q.site_cake_marks + b@,
            ..q
        }),
    }
}

/// Holders for records that have been ingested and not yet submitted to the
/// collector, divided by statistic category to maximize batching.
pub struct MessageQueue {
    pub general_queue: Vec<GeneralRecord>,
    pub circuit_throughput: Vec<StatRecord>,
    pub circuit_retransmits: Vec<StatRecord>,
    pub circuit_rtt: Vec<StatRecord>,
    pub circuit_cake_drops: Vec<StatRecord>,
    pub circuit_cake_marks: Vec<StatRecord>,
    pub site_throughput: Vec<StatRecord>,
    pub site_retransmits: Vec<StatRecord>,
    pub site_rtt: Vec<StatRecord>,
    pub site_cake_drops: Vec<StatRecord>,
    pub site_cake_marks: Vec<StatRecord>,
}

impl View for MessageQueue {
    type V = QueueModel;

    open spec fn view(&self) -> QueueModel {
        QueueModel {
            general: self.general_queue@,
            circuit_throughput: self.circuit_throughput@,
            circuit_retransmits: self.circuit_retransmits@,
            circuit_rtt: self.circuit_rtt@,
            circuit_cake_drops: self.circuit_cake_drops@,
            circuit_cake_marks: self.circuit_cake_marks@,
            site_throughput: self.site_throughput@,
            site_retransmits: self.site_retransmits@,
            site_rtt: self.site_rtt@,
            site_cake_drops: self.site_cake_drops@,
            site_cake_marks: self.site_cake_marks@,
        }
    }
}

impl MessageQueue {
    /// A store with every category sequence empty.
    pub fn new() -> (q: Self)
        ensures
            q@ == empty_queue(),
    {
        Self {
            general_queue: Vec::new(),
            circuit_throughput: Vec::new(),
            circuit_retransmits: Vec::new(),
            circuit_rtt: Vec::new(),
            circuit_cake_drops: Vec::new(),
            circuit_cake_marks: Vec::new(),
            site_throughput: Vec::new(),
            site_retransmits: Vec::new(),
            site_rtt: Vec::new(),
            site_cake_drops: Vec::new(),
            site_cake_marks: Vec::new(),
        }
    }

    /// True iff every category sequence — the general one and all ten
    /// statistic categories — is empty.
    pub fn is_empty(&self) -> (r: bool)
        ensures
            r == queue_is_empty(self@),
    {
        self.general_queue.is_empty() && self.circuit_throughput.is_empty()
            && self.circuit_retransmits.is_empty() && self.circuit_rtt.is_empty()
            && self.circuit_cake_drops.is_empty() && self.circuit_cake_marks.is_empty()
            && self.site_throughput.is_empty() && self.site_retransmits.is_empty()
            && self.site_cake_drops.is_empty() && self.site_cake_marks.is_empty()
            && self.site_rtt.is_empty()
    }

    /// Classifies the command by its tag and appends its contents to the
    /// matching category sequence; every other sequence is left unchanged.
    pub fn ingest(&mut self, command: IngestorCommand)
        ensures
            final(self)@ == spec_ingest(old(self)@, command),
    {
        match command {
            IngestorCommand::General(g) => {
                self.general_queue.push(g);
            },
            IngestorCommand::CircuitThroughputBatch(mut b) => {
                self.circuit_throughput.append(&mut b);
            },
            IngestorCommand::CircuitRetransmitsBatch(mut b) => {
                self.circuit_retransmits.append(&mut b);
            },
            IngestorCommand::CircuitRttBatch(mut b) => {
                self.circuit_rtt.append(&mut b);
            },
            IngestorCommand::CircuitCakeDropsBatch(mut b) => {
                self.circuit_cake_drops.append(&mut b);
            },
            IngestorCommand::CircuitCakeMarksBatch(mut b) => {
                self.circuit_cake_marks.append(&mut b);
            },
            IngestorCommand::SiteThroughputBatch(mut b) => {
                self.site_throughput.append(&mut b);
            },
            IngestorCommand::SiteRetransmitsBatch(mut b) => {
                self.site_retransmits.append(&mut b);
            },
            IngestorCommand::SiteRttBatch(mut b) => {
                self.site_rtt.append(&mut b);
            },
            IngestorCommand::SiteCakeDropsBatch(mut b) => {
                self.site_cake_drops.append(&mut b);
            },
            IngestorCommand::SiteCakeMarksBatch(mut b) => {
                self.site_cake_marks.append(&mut b);
            },
        }
    }

    /// Empties every category sequence unconditionally, discarding any
    /// unsent data.
    pub fn clear(&mut self)
        ensures
            final(self)@ == empty_queue(),
    {
        self.general_queue.clear();
        self.circuit_throughput.clear();
        self.circuit_retransmits.clear();
        self.circuit_rtt.clear();
        self.circuit_cake_drops.clear();
        self.circuit_cake_marks.clear();
        self.site_throughput.clear();
        self.site_retransmits.clear();
        self.site_cake_drops.clear();
        self.site_cake_marks.clear();
        self.site_rtt.clear();
    }
}

} // verus!
