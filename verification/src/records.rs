//! The record and command types that flow through the batch store.

use vstd::prelude::*;

verus! {

/// One per-entity statistics record. Its fields are opaque to this
/// subsystem: they are produced elsewhere and carried through unchanged.
#[derive(Clone, Copy, PartialEq, Eq, Structural, Debug)]
pub struct StatRecord {
    pub timestamp: u64,
    pub entity: u64,
    pub down: u64,
    pub up: u64,
}

/// An uncategorized record: an opaque payload that lands in the
/// "general" category of the batch store.
#[derive(Clone, PartialEq, Eq, Debug)]
pub struct GeneralRecord {
    pub data: Vec<u8>,
}

impl View for GeneralRecord {
    type V = Seq<u8>;

    open spec fn view(&self) -> Seq<u8> {
        self.data@
    }
}

/// An opaque operator-issued command descriptor received from the
/// collector; it is handed to the command collaborator on receipt.
#[derive(Clone, PartialEq, Eq, Debug)]
pub struct RemoteCommand {
    pub data: Vec<u8>,
}

impl View for RemoteCommand {
    type V = Seq<u8>;

    open spec fn view(&self) -> Seq<u8> {
        self.data@
    }
}

/// The byte contents of a sequence of general records.
pub open spec fn general_views(v: Seq<GeneralRecord>) -> Seq<Seq<u8>> {
    v.map_values(|g: GeneralRecord| g@)
}

/// The byte contents of a sequence of remote commands.
pub open spec fn command_views(v: Seq<RemoteCommand>) -> Seq<Seq<u8>> {
    v.map_values(|c: RemoteCommand| c@)
}

/// One ingest operation: either a batch of records for one of the ten
/// statistic categories, or a single general record. The variant tag alone
/// decides which category sequence of the store the contents land in.
#[derive(Clone, PartialEq, Eq, Debug)]
pub enum IngestorCommand {
    General(GeneralRecord),
    CircuitThroughputBatch(Vec<StatRecord>),
    CircuitRetransmitsBatch(Vec<StatRecord>),
    CircuitRttBatch(Vec<StatRecord>),
    CircuitCakeDropsBatch(Vec<StatRecord>),
    CircuitCakeMarksBatch(Vec<StatRecord>),
    SiteThroughputBatch(Vec<StatRecord>),
    SiteRetransmitsBatch(Vec<StatRecord>),
    SiteRttBatch(Vec<StatRecord>),
    SiteCakeDropsBatch(Vec<StatRecord>),
    SiteCakeMarksBatch(Vec<StatRecord>),
}

} // verus!
