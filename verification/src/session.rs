//! The session protocol: a strictly ordered handshake and exchange with the
//! collector, expressed as a verified state machine.
//!
//! [`session_step`] takes the current state and one event (a configuration
//! snapshot, a transport outcome, or a received frame) and returns the next
//! state together with the one action the caller must perform next. The
//! caller owns the transport: it connects, sends, reads and closes, and
//! feeds every outcome back in as the next event. Every failure aborts the
//! whole attempt; the batch store is touched at exactly two points — it is
//! cleared when reporting is disabled, and drained when `CanSubmit` arrives.

use vstd::prelude::*;
use vstd::string::StringSliceAdditionalSpecFns;
use vstd::utf8::encode_utf8;

use crate::codec::{deflate_of, spec_decode, IngestSession, WsMessage};
use crate::records::{command_views, general_views, RemoteCommand};
use crate::store::{empty_queue, queue_is_empty, MessageQueue, QueueModel};
use crate::wire::{wire_bytes, SpecMessage, SpecSession};

verus! {

/// The magic value the client announces in its Hello frame.
pub const CLIENT_MAGIC: u32 = 0x2763;

/// The magic value the collector must announce in its Hello reply.
pub const SERVER_MAGIC: u32 = 0x3672;

/// The reserved collector port.
pub const COLLECTOR_PORT: u16 = 9121;

/// A snapshot of the configuration values this subsystem consumes. It is
/// read fresh each time the state machine asks for it, so a concurrently
/// updated license takes effect mid-cycle.
#[derive(Clone, PartialEq, Eq, Debug)]
pub struct ReportConfig {
    /// Is reporting administratively enabled?
    pub use_insight: bool,
    /// The license identifier, to be parsed before the License step.
    pub license_key: String,
    /// The node identifier.
    pub node_id: String,
    /// The node display name.
    pub node_name: String,
    /// The collector host.
    pub remote_host: String,
}

/// What parsing a license identifier yields; a pure function of the
/// characters of the input.
pub uninterp spec fn license_of(s: Seq<char>) -> Option<u128>;

/// Relies on uuid::Uuid::parse_str (and Uuid::as_u128): parsing is
/// deterministic in the characters of the input and fails exactly on
/// malformed identifiers.
#[verifier::external_body]
fn parse_license(s: &str) -> (r: Option<u128>)
    ensures
        r == license_of(s@),
{
    match uuid::Uuid::parse_str(s) {
        Ok(u) => Some(u.as_u128()),
        Err(_) => None,
    }
}

// ---------------------------------------------------------------------------
// States, events, actions — executable values and their spec models
// ---------------------------------------------------------------------------

/// Where the session stands; the post-handshake states carry the identity
/// read from configuration at the License step.
#[derive(Clone, PartialEq, Eq, Debug)]
pub enum SessionState {
    Start,
    Connecting,
    HelloSent,
    AwaitingHello,
    HelloExchanged,
    LicenseSent { license: u128, node_id: Vec<u8>, node_name: Vec<u8> },
    AwaitingCanSubmit { license: u128, node_id: Vec<u8>, node_name: Vec<u8> },
    DataSent { node_id: Vec<u8> },
    RequestSent,
    AwaitingCommands,
    Done,
    Aborted,
}

pub ghost enum SpecState {
    Start,
    Connecting,
    HelloSent,
    AwaitingHello,
    HelloExchanged,
    LicenseSent { license: u128, node_id: Seq<u8>, node_name: Seq<u8> },
    AwaitingCanSubmit { license: u128, node_id: Seq<u8>, node_name: Seq<u8> },
    DataSent { node_id: Seq<u8> },
    RequestSent,
    AwaitingCommands,
    Done,
    Aborted,
}

impl View for SessionState {
    type V = SpecState;

    open spec fn view(&self) -> SpecState {
        match self {
            SessionState::Start => SpecState::Start,
            SessionState::Connecting => SpecState::Connecting,
            SessionState::HelloSent => SpecState::HelloSent,
            SessionState::AwaitingHello => SpecState::AwaitingHello,
            SessionState::HelloExchanged => SpecState::HelloExchanged,
            SessionState::LicenseSent { license, node_id, node_name } => (SpecState::LicenseSent {
                license: *license,
                node_id: node_id@,
                node_name: node_name@,
            }),
            SessionState::AwaitingCanSubmit { license, node_id, node_name } => (
            SpecState::AwaitingCanSubmit {
                license: *license,
                node_id: node_id@,
                node_name: node_name@,
            }),
            SessionState::DataSent { node_id } => (SpecState::DataSent { node_id: node_id@ }),
            SessionState::RequestSent => SpecState::RequestSent,
            SessionState::AwaitingCommands => SpecState::AwaitingCommands,
            SessionState::Done => SpecState::Done,
            SessionState::Aborted => SpecState::Aborted,
        }
    }
}

/// One outcome of the outside work the caller performed.
#[derive(PartialEq, Eq, Debug)]
pub enum SessionEvent {
    /// The configuration was read; the snapshot follows.
    ConfigRead(ReportConfig),
    ConnectOk,
    ConnectFailed,
    SendOk,
    SendFailed,
    /// One frame was read from the transport.
    FrameReceived(Vec<u8>),
    ReadFailed,
}

pub ghost enum SpecEvent {
    ConfigRead {
        use_insight: bool,
        license_key: Seq<char>,
        node_id: Seq<char>,
        node_name: Seq<char>,
        remote_host: Seq<char>,
    },
    ConnectOk,
    ConnectFailed,
    SendOk,
    SendFailed,
    FrameReceived(Seq<u8>),
    ReadFailed,
}

impl View for SessionEvent {
    type V = SpecEvent;

    open spec fn view(&self) -> SpecEvent {
        match self {
            SessionEvent::ConfigRead(c) => (SpecEvent::ConfigRead {
                use_insight: c.use_insight,
                license_key: c.license_key@,
                node_id: c.node_id@,
                node_name: c.node_name@,
                remote_host: c.remote_host@,
            }),
            SessionEvent::ConnectOk => SpecEvent::ConnectOk,
            SessionEvent::ConnectFailed => SpecEvent::ConnectFailed,
            SessionEvent::SendOk => SpecEvent::SendOk,
            SessionEvent::SendFailed => SpecEvent::SendFailed,
            SessionEvent::FrameReceived(b) => SpecEvent::FrameReceived(b@),
            SessionEvent::ReadFailed => SpecEvent::ReadFailed,
        }
    }
}

/// The one thing the caller must do next. `Finish` and `DeliverCommands`
/// are terminal: the connection is released in all cases.
#[derive(PartialEq, Eq, Debug)]
pub enum SessionAction {
    /// Read the configuration and report it as `ConfigRead`.
    ReadConfig,
    /// Connect to this collector host on [`COLLECTOR_PORT`]; report
    /// `ConnectOk` or `ConnectFailed`.
    Connect(String),
    /// Send these frame bytes; report `SendOk` or `SendFailed`.
    SendFrame(Vec<u8>),
    /// Read one frame; report `FrameReceived` or `ReadFailed`.
    ReadFrame,
    /// Hand the received commands to the command collaborator
    /// (fire-and-forget), then close the connection.
    DeliverCommands(Vec<RemoteCommand>),
    /// Close the connection; the attempt is over.
    Finish,
}

pub ghost enum SpecAction {
    ReadConfig,
    Connect(Seq<char>),
    SendFrame(Seq<u8>),
    ReadFrame,
    DeliverCommands(Seq<Seq<u8>>),
    Finish,
}

impl View for SessionAction {
    type V = SpecAction;

    open spec fn view(&self) -> SpecAction {
        match self {
            SessionAction::ReadConfig => SpecAction::ReadConfig,
            SessionAction::Connect(h) => SpecAction::Connect(h@),
            SessionAction::SendFrame(b) => SpecAction::SendFrame(b@),
            SessionAction::ReadFrame => SpecAction::ReadFrame,
            SessionAction::DeliverCommands(cs) => SpecAction::DeliverCommands(command_views(cs@)),
            SessionAction::Finish => SpecAction::Finish,
        }
    }
}

// ---------------------------------------------------------------------------
// The step relation, as one spec function
// ---------------------------------------------------------------------------

/// The session payload built at the drain step: the identity fields and the
/// whole contents of the store.
pub open spec fn drained_session(
    license: u128,
    node_id: Seq<u8>,
    node_name: Seq<u8>,
    q: QueueModel,
) -> SpecSession {
    SpecSession {
        license,
        node_id,
        node_name,
        general: general_views(q.general),
        circuit_throughput: q.circuit_throughput,
        circuit_retransmits: q.circuit_retransmits,
        circuit_rtt: q.circuit_rtt,
        circuit_cake_drops: q.circuit_cake_drops,
        circuit_cake_marks: q.circuit_cake_marks,
        site_throughput: q.site_throughput,
        site_retransmits: q.site_retransmits,
        site_rtt: q.site_rtt,
        site_cake_drops: q.site_cake_drops,
        site_cake_marks: q.site_cake_marks,
    }
}

/// The transport frame that carries a message: its wire bytes, compressed.
pub open spec fn frame_of(m: SpecMessage) -> Seq<u8> {
    deflate_of(wire_bytes(m))
}

pub open spec fn spec_abort(q: QueueModel) -> (SpecState, SpecAction, QueueModel) {
    (SpecState::Aborted, SpecAction::Finish, q)
}

/// What one step of the session does: the next state, the action handed to
/// the caller, and the store contents after the step. Any unexpected event
/// or frame aborts the attempt with the store untouched.
pub open spec fn spec_step(state: SpecState, q: QueueModel, event: SpecEvent) -> (
    SpecState,
    SpecAction,
    QueueModel,
) {
    match (state, event) {
        (
            SpecState::Start,
            SpecEvent::ConfigRead { use_insight, license_key, node_id, node_name, remote_host },
        ) => if !use_insight {
            (SpecState::Done, SpecAction::Finish, empty_queue())
        } else {
            (SpecState::Connecting, SpecAction::Connect(remote_host), q)
        },
        (SpecState::Connecting, SpecEvent::ConnectOk) => (
            SpecState::HelloSent,
            SpecAction::SendFrame(frame_of(SpecMessage::Hello { magic: CLIENT_MAGIC as u32 })),
            q,
        ),
        (SpecState::HelloSent, SpecEvent::SendOk) => (
            SpecState::AwaitingHello,
            SpecAction::ReadFrame,
            q,
        ),
        (SpecState::AwaitingHello, SpecEvent::FrameReceived(b)) => if spec_decode(b) == Some(
            SpecMessage::Hello { magic: SERVER_MAGIC as u32 },
        ) {
            (SpecState::HelloExchanged, SpecAction::ReadConfig, q)
        } else {
            spec_abort(q)
        },
        (
            SpecState::HelloExchanged,
            SpecEvent::ConfigRead { use_insight, license_key, node_id, node_name, remote_host },
        ) => match license_of(license_key) {
            None => spec_abort(q),
            Some(license) => (
                (SpecState::LicenseSent {
                    license,
                    node_id: encode_utf8(node_id),
                    node_name: encode_utf8(node_name),
                }),
                SpecAction::SendFrame(frame_of(SpecMessage::License { license })),
                q,
            ),
        },
        (SpecState::LicenseSent { license, node_id, node_name }, SpecEvent::SendOk) => (
            (SpecState::AwaitingCanSubmit { license, node_id, node_name }),
            SpecAction::ReadFrame,
            q,
        ),
        (
            SpecState::AwaitingCanSubmit { license, node_id, node_name },
            SpecEvent::FrameReceived(b),
        ) => if spec_decode(b) == Some(SpecMessage::CanSubmit) {
            (
                (SpecState::DataSent { node_id }),
                SpecAction::SendFrame(
                    frame_of(
                        SpecMessage::DataDump {
                            data: drained_session(license, node_id, node_name, q),
                        },
                    ),
                ),
                empty_queue(),
            )
        } else {
            spec_abort(q)
        },
        (SpecState::DataSent { node_id }, SpecEvent::SendOk) => (
            SpecState::RequestSent,
            SpecAction::SendFrame(frame_of(SpecMessage::RequestRemoteCommands { node_id })),
            q,
        ),
        (SpecState::RequestSent, SpecEvent::SendOk) => (
            SpecState::AwaitingCommands,
            SpecAction::ReadFrame,
            q,
        ),
        (SpecState::AwaitingCommands, SpecEvent::FrameReceived(b)) => match spec_decode(b) {
            Some(SpecMessage::RemoteCommands { commands }) => (
                SpecState::Done,
                SpecAction::DeliverCommands(commands),
                q,
            ),
            _ => spec_abort(q),
        },
        _ => spec_abort(q),
    }
}

// ---------------------------------------------------------------------------
// Executable step
// ---------------------------------------------------------------------------

fn str_bytes(s: &str) -> (r: Vec<u8>)
    ensures
        r@ == encode_utf8(s@),
{
    let mut r: Vec<u8> = Vec::new();
    r.extend_from_slice(s.as_bytes());
    proof {
        assert(Seq::<u8>::empty() + s.spec_bytes() =~= s.spec_bytes());
    }
    r
}

fn clone_bytes(v: &Vec<u8>) -> (r: Vec<u8>)
    ensures
        r@ == v@,
{
    let mut r: Vec<u8> = Vec::new();
    r.extend_from_slice(v.as_slice());
    proof {
        assert(Seq::<u8>::empty() + v@ =~= v@);
    }
    r
}

/// Drains every category of the store into a fresh session payload; the
/// store is empty afterwards.
fn drain_queue(
    queue: &mut MessageQueue,
    license: u128,
    node_id: Vec<u8>,
    node_name: Vec<u8>,
) -> (s: IngestSession)
    ensures
        final(queue)@ == empty_queue(),
        s@ == drained_session(license, node_id@, node_name@, old(queue)@),
{
    let mut taken = MessageQueue::new();
    core::mem::swap(queue, &mut taken);
    IngestSession {
        license_key: license,
        node_id,
        node_name,
        general: taken.general_queue,
        circuit_throughput: taken.circuit_throughput,
        circuit_retransmits: taken.circuit_retransmits,
        circuit_rtt: taken.circuit_rtt,
        circuit_cake_drops: taken.circuit_cake_drops,
        circuit_cake_marks: taken.circuit_cake_marks,
        site_throughput: taken.site_throughput,
        site_retransmits: taken.site_retransmits,
        site_rtt: taken.site_rtt,
        site_cake_drops: taken.site_cake_drops,
        site_cake_marks: taken.site_cake_marks,
    }
}

/// One step of the session protocol: consumes the current state and one
/// event, touches the store exactly as [`spec_step`] says, and returns the
/// next state and the action the caller must perform.
#[verifier::rlimit(100)]
#[verifier::spinoff_prover]
pub fn session_step(queue: &mut MessageQueue, state: SessionState, event: SessionEvent) -> (r: (
    SessionState,
    SessionAction,
))
    ensures
        ({
            let step = spec_step(state@, old(queue)@, event@);
            r.0@ == step.0 && r.1@ == step.1 && final(queue)@ == step.2
        }),
{
    match (state, event) {
        (SessionState::Start, SessionEvent::ConfigRead(c)) => {
            if !c.use_insight {
                queue.clear();
                return (SessionState::Done, SessionAction::Finish);
            } else {
                return (SessionState::Connecting, SessionAction::Connect(c.remote_host));
            }
        },
        (SessionState::Connecting, SessionEvent::ConnectOk) => {
            let frame = (WsMessage::Hello { magic: CLIENT_MAGIC }).to_bytes().2;
            return (SessionState::HelloSent, SessionAction::SendFrame(frame));
        },
        (SessionState::HelloSent, SessionEvent::SendOk) => {
            return (SessionState::AwaitingHello, SessionAction::ReadFrame);
        },
        (SessionState::AwaitingHello, SessionEvent::FrameReceived(b)) => {
            match WsMessage::from_bytes(b.as_slice()) {
                Ok(m) => match m {
                    WsMessage::Hello { magic } => {
                        if magic == SERVER_MAGIC {
                            return (SessionState::HelloExchanged, SessionAction::ReadConfig);
                        } else {
                            return (SessionState::Aborted, SessionAction::Finish);
                        }
                    },
                    _ => return (SessionState::Aborted, SessionAction::Finish),
                },
                Err(_) => return (SessionState::Aborted, SessionAction::Finish),
            }
        },
        (SessionState::HelloExchanged, SessionEvent::ConfigRead(c)) => {
            match parse_license(c.license_key.as_str()) {
                None => return (SessionState::Aborted, SessionAction::Finish),
                Some(license) => {
                    let node_id = str_bytes(c.node_id.as_str());
                    let node_name = str_bytes(c.node_name.as_str());
                    let frame = (WsMessage::License { license }).to_bytes().2;
                    return (
                        SessionState::LicenseSent { license, node_id, node_name },
                        SessionAction::SendFrame(frame),
                    );
                },
            }
        },
        (SessionState::LicenseSent { license, node_id, node_name }, SessionEvent::SendOk) => {
            return (
                SessionState::AwaitingCanSubmit { license, node_id, node_name },
                SessionAction::ReadFrame,
            );
        },
        (
            SessionState::AwaitingCanSubmit { license, node_id, node_name },
            SessionEvent::FrameReceived(b),
        ) => {
            match WsMessage::from_bytes(b.as_slice()) {
                Ok(m) => match m {
                    WsMessage::CanSubmit => {
                        let kept_node_id = clone_bytes(&node_id);
                        let data = drain_queue(queue, license, node_id, node_name);
                        let frame = (WsMessage::DataDump { data }).to_bytes().2;
                        return (
                            SessionState::DataSent { node_id: kept_node_id },
                            SessionAction::SendFrame(frame),
                        );
                    },
                    _ => return (SessionState::Aborted, SessionAction::Finish),
                },
                Err(_) => return (SessionState::Aborted, SessionAction::Finish),
            }
        },
        (SessionState::DataSent { node_id }, SessionEvent::SendOk) => {
            let frame = (WsMessage::RequestRemoteCommands { node_id }).to_bytes().2;
            return (SessionState::RequestSent, SessionAction::SendFrame(frame));
        },
        (SessionState::RequestSent, SessionEvent::SendOk) => {
            return (SessionState::AwaitingCommands, SessionAction::ReadFrame);
        },
        (SessionState::AwaitingCommands, SessionEvent::FrameReceived(b)) => {
            match WsMessage::from_bytes(b.as_slice()) {
                Ok(m) => match m {
                    WsMessage::RemoteCommands { commands } => {
                        return (SessionState::Done, SessionAction::DeliverCommands(commands));
                    },
                    _ => return (SessionState::Aborted, SessionAction::Finish),
                },
                Err(_) => return (SessionState::Aborted, SessionAction::Finish),
            }
        },
        _ => return (SessionState::Aborted, SessionAction::Finish),
    }
}

// ---------------------------------------------------------------------------
// Laws of the step relation
// ---------------------------------------------------------------------------

/// The two steps that may touch the store: the clear when reporting is
/// disabled, and the drain when `CanSubmit` arrives.
pub open spec fn step_clears(state: SpecState, event: SpecEvent) -> bool {
    state is Start && event matches SpecEvent::ConfigRead { use_insight: false, .. }
}

pub open spec fn step_drains(state: SpecState, event: SpecEvent) -> bool {
    state is AwaitingCanSubmit && (event matches SpecEvent::FrameReceived(b) && spec_decode(b)
        == Some(SpecMessage::CanSubmit))
}

/// Every step other than the disabled-clear and the drain leaves the
/// store's contents exactly unchanged.
pub proof fn lemma_step_preserves_store(state: SpecState, q: QueueModel, event: SpecEvent)
    requires
        !step_clears(state, event),
        !step_drains(state, event),
    ensures
        spec_step(state, q, event).2 == q,
{
}

/// If reporting is disabled, the one step of the attempt empties the store,
/// finishes at once, and issues no transport action.
pub proof fn lemma_disabled_clears(q: QueueModel, event: SpecEvent)
    requires
        event matches SpecEvent::ConfigRead { use_insight: false, .. },
    ensures
        ({
            let step = spec_step(SpecState::Start, q, event);
            step.0 == SpecState::Done && step.1 == SpecAction::Finish && queue_is_empty(step.2)
        }),
{
}

/// If the initial connection fails, the attempt aborts with the store's
/// contents exactly unchanged.
pub proof fn lemma_connect_failure_preserves(q: QueueModel)
    ensures
        ({
            let step = spec_step(SpecState::Connecting, q, SpecEvent::ConnectFailed);
            step.0 == SpecState::Aborted && step.1 == SpecAction::Finish && step.2 == q
        }),
{
}

/// If the handshake reaches `CanSubmit`, the drain empties the store; if
/// the DataDump send then fails, the attempt aborts with the store still
/// empty — that cycle's statistics are lost.
pub proof fn lemma_dump_send_failure_leaves_empty(
    license: u128,
    node_id: Seq<u8>,
    node_name: Seq<u8>,
    q: QueueModel,
    b: Seq<u8>,
)
    requires
        spec_decode(b) == Some(SpecMessage::CanSubmit),
    ensures
        ({
            let state = (SpecState::AwaitingCanSubmit { license, node_id, node_name });
            let drained = spec_step(state, q, SpecEvent::FrameReceived(b));
            let failed = spec_step(drained.0, drained.2, SpecEvent::SendFailed);
            queue_is_empty(drained.2) && failed.0 == SpecState::Aborted && queue_is_empty(failed.2)
        }),
{
}

} // verus!
