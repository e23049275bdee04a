//! The executable wire codec: the protocol message types, their
//! serializer and parser (verified against the spec functions of
//! [`crate::wire`]), and the DEFLATE compression step that turns a
//! serialized message into one transport frame.

use vstd::bytes::{
    spec_u32_to_le_bytes, spec_u64_to_le_bytes, spec_u128_to_le_bytes, u128_from_le_bytes,
    u128_to_le_bytes, u32_from_le_bytes, u32_to_le_bytes, u64_from_le_bytes, u64_to_le_bytes,
};
use vstd::prelude::*;
use vstd::slice::{slice_index_get, slice_subrange, slice_to_vec};

use crate::records::{command_views, general_views, GeneralRecord, RemoteCommand, StatRecord};
use crate::wire::{
    blobs_wf, lemma_ser_blobs_body_push, lemma_ser_records_body_push, lemma_wire_round_trip,
    msg_wf, p_blobs, p_blobs_n, p_bytes, p_msg, p_record, p_records, p_records_n, p_session,
    p_u128, p_u32, p_u64, p_u8, ser_blobs, ser_blobs_body, ser_bytes, ser_record, ser_records,
    ser_records_body, ser_session, session_wf, wire_bytes, SpecMessage, SpecSession,
};

verus! {

// ---------------------------------------------------------------------------
// Executable message types
// ---------------------------------------------------------------------------

/// The session payload sent as a `DataDump` frame: built fresh for each
/// transmission attempt from the drained batch store and the identity read
/// from configuration.
#[derive(Clone, PartialEq, Eq, Debug)]
pub struct IngestSession {
    pub license_key: u128,
    pub node_id: Vec<u8>,
    pub node_name: Vec<u8>,
    pub general: Vec<GeneralRecord>,
    pub circuit_throughput: Vec<StatRecord>,
    pub circuit_retransmits: Vec<StatRecord>,
    pub circuit_rtt: Vec<StatRecord>,
    pub circuit_cake_drops: Vec<StatRecord>,
    pub circuit_cake_marks: Vec<StatRecord>,
    pub site_throughput: Vec<StatRecord>,
    pub site_retransmits: Vec<StatRecord>,
    pub site_rtt: Vec<StatRecord>,
    pub site_cake_drops: Vec<StatRecord>,
    pub site_cake_marks: Vec<StatRecord>,
}

impl View for IngestSession {
    type V = SpecSession;

    open spec fn view(&self) -> SpecSession {
        SpecSession {
            license: self.license_key,
            node_id: self.node_id@,
            node_name: self.node_name@,
            general: general_views(self.general@),
            circuit_throughput: self.circuit_throughput@,
            circuit_retransmits: self.circuit_retransmits@,
            circuit_rtt: self.circuit_rtt@,
            circuit_cake_drops: self.circuit_cake_drops@,
            circuit_cake_marks: self.circuit_cake_marks@,
            site_throughput: self.site_throughput@,
            site_retransmits: self.site_retransmits@,
            site_rtt: self.site_rtt@,
            site_cake_drops: self.site_cake_drops@,
            site_cake_marks: self.site_cake_marks@,
        }
    }
}

/// One protocol message, exactly one variant per wire frame.
#[derive(Clone, PartialEq, Eq, Debug)]
pub enum WsMessage {
    Hello { magic: u32 },
    License { license: u128 },
    DataDump { data: IngestSession },
    RequestRemoteCommands { node_id: Vec<u8> },
    CanSubmit,
    RemoteCommands { commands: Vec<RemoteCommand> },
}

impl View for WsMessage {
    type V = SpecMessage;

    open spec fn view(&self) -> SpecMessage {
        match self {
            WsMessage::Hello { magic } => (SpecMessage::Hello { magic: *magic }),
            WsMessage::License { license } => (SpecMessage::License { license: *license }),
            WsMessage::DataDump { data } => (SpecMessage::DataDump { data: data@ }),
            WsMessage::RequestRemoteCommands { node_id } => (SpecMessage::RequestRemoteCommands {
                node_id: node_id@,
            }),
            WsMessage::CanSubmit => SpecMessage::CanSubmit,
            WsMessage::RemoteCommands { commands } => (SpecMessage::RemoteCommands {
                commands: command_views(commands@),
            }),
        }
    }
}

/// Why a received frame could not be decoded.
#[derive(Clone, Copy, PartialEq, Eq, Structural, Debug)]
pub enum DecodeError {
    /// The frame is not a valid DEFLATE stream.
    Decompress,
    /// The decompressed payload is not the serialization of any message.
    Malformed,
}

// ---------------------------------------------------------------------------
// Serializer
// ---------------------------------------------------------------------------

fn push_u8(out: &mut Vec<u8>, x: u8)
    ensures
        final(out)@ == old(out)@ + seq![x],
{
    out.push(x);
    proof {
        assert(out@ =~= old(out)@ + seq![x]);
    }
}

fn push_u32(out: &mut Vec<u8>, x: u32)
    ensures
        final(out)@ == old(out)@ + spec_u32_to_le_bytes(x),
{
    let mut t = u32_to_le_bytes(x);
    out.append(&mut t);
}

fn push_u64(out: &mut Vec<u8>, x: u64)
    ensures
        final(out)@ == old(out)@ + spec_u64_to_le_bytes(x),
{
    let mut t = u64_to_le_bytes(x);
    out.append(&mut t);
}

fn push_u128(out: &mut Vec<u8>, x: u128)
    ensures
        final(out)@ == old(out)@ + spec_u128_to_le_bytes(x),
{
    let mut t = u128_to_le_bytes(x);
    out.append(&mut t);
}

fn push_buf(out: &mut Vec<u8>, b: &Vec<u8>)
    ensures
        final(out)@ == old(out)@ + ser_bytes(b@),
{
    let n = b.len();
    push_u64(out, n as u64);
    out.extend_from_slice(b.as_slice());
    proof {
        assert(out@ =~= old(out)@ + ser_bytes(b@));
    }
}

fn push_record(out: &mut Vec<u8>, r: &StatRecord)
    ensures
        final(out)@ == old(out)@ + ser_record(*r),
{
    push_u64(out, r.timestamp);
    push_u64(out, r.entity);
    push_u64(out, r.down);
    push_u64(out, r.up);
    proof {
        assert(out@ =~= old(out)@ + ser_record(*r));
    }
}

fn push_records(out: &mut Vec<u8>, rs: &Vec<StatRecord>)
    ensures
        final(out)@ == old(out)@ + ser_records(rs@),
{
    let n = rs.len();
    push_u64(out, n as u64);
    let mut i: usize = 0;
    while i < n
        invariant
            i <= n,
            n == rs@.len(),
            out@ == old(out)@ + spec_u64_to_le_bytes(rs@.len() as u64) + ser_records_body(
                rs@.take(i as int),
            ),
        decreases n - i,
    {
        let rec = rs[i];
        push_record(out, &rec);
        proof {
            lemma_ser_records_body_push(rs@.take(i as int), rs@[i as int]);
            assert(rs@.take(i as int).push(rs@[i as int]) =~= rs@.take(i as int + 1));
            assert((old(out)@ + spec_u64_to_le_bytes(rs@.len() as u64) + ser_records_body(
                rs@.take(i as int),
            )) + ser_record(rs@[i as int]) =~= old(out)@ + spec_u64_to_le_bytes(rs@.len() as u64)
                + (ser_records_body(rs@.take(i as int)) + ser_record(rs@[i as int])));
        }
        i += 1;
    }
    proof {
        assert(rs@.take(n as int) =~= rs@);
        assert(old(out)@ + spec_u64_to_le_bytes(rs@.len() as u64) + ser_records_body(rs@)
            =~= old(out)@ + ser_records(rs@));
    }
}

fn push_generals(out: &mut Vec<u8>, v: &Vec<GeneralRecord>)
    ensures
        final(out)@ == old(out)@ + ser_blobs(general_views(v@)),
{
    let n = v.len();
    push_u64(out, n as u64);
    let mut i: usize = 0;
    while i < n
        invariant
            i <= n,
            n == v@.len(),
            out@ == old(out)@ + spec_u64_to_le_bytes(general_views(v@).len() as u64)
                + ser_blobs_body(general_views(v@).take(i as int)),
        decreases n - i,
    {
        push_buf(out, &v[i].data);
        proof {
            let gv = general_views(v@);
            lemma_ser_blobs_body_push(gv.take(i as int), gv[i as int]);
            assert(gv.take(i as int).push(gv[i as int]) =~= gv.take(i as int + 1));
            assert(gv[i as int] == v@[i as int]@);
            assert((old(out)@ + spec_u64_to_le_bytes(gv.len() as u64) + ser_blobs_body(
                gv.take(i as int),
            )) + ser_bytes(gv[i as int]) =~= old(out)@ + spec_u64_to_le_bytes(gv.len() as u64) + (
            ser_blobs_body(gv.take(i as int)) + ser_bytes(gv[i as int])));
        }
        i += 1;
    }
    proof {
        let gv = general_views(v@);
        assert(gv.take(n as int) =~= gv);
        assert(old(out)@ + spec_u64_to_le_bytes(gv.len() as u64) + ser_blobs_body(gv) =~= old(
            out,
        )@ + ser_blobs(gv));
    }
}

fn push_commands(out: &mut Vec<u8>, v: &Vec<RemoteCommand>)
    ensures
        final(out)@ == old(out)@ + ser_blobs(command_views(v@)),
{
    let n = v.len();
    push_u64(out, n as u64);
    let mut i: usize = 0;
    while i < n
        invariant
            i <= n,
            n == v@.len(),
            out@ == old(out)@ + spec_u64_to_le_bytes(command_views(v@).len() as u64)
                + ser_blobs_body(command_views(v@).take(i as int)),
        decreases n - i,
    {
        push_buf(out, &v[i].data);
        proof {
            let cv = command_views(v@);
            lemma_ser_blobs_body_push(cv.take(i as int), cv[i as int]);
            assert(cv.take(i as int).push(cv[i as int]) =~= cv.take(i as int + 1));
            assert(cv[i as int] == v@[i as int]@);
            assert((old(out)@ + spec_u64_to_le_bytes(cv.len() as u64) + ser_blobs_body(
                cv.take(i as int),
            )) + ser_bytes(cv[i as int]) =~= old(out)@ + spec_u64_to_le_bytes(cv.len() as u64) + (
            ser_blobs_body(cv.take(i as int)) + ser_bytes(cv[i as int])));
        }
        i += 1;
    }
    proof {
        let cv = command_views(v@);
        assert(cv.take(n as int) =~= cv);
        assert(old(out)@ + spec_u64_to_le_bytes(cv.len() as u64) + ser_blobs_body(cv) =~= old(
            out,
        )@ + ser_blobs(cv));
    }
}

#[verifier::rlimit(100)]
fn push_session(out: &mut Vec<u8>, s: &IngestSession)
    ensures
        final(out)@ == old(out)@ + ser_session(s@),
{
    let ghost a1 = spec_u128_to_le_bytes(s@.license);
    let ghost p1 = a1 + ser_bytes(s@.node_id);
    let ghost p2 = p1 + ser_bytes(s@.node_name);
    let ghost p3 = p2 + ser_blobs(s@.general);
    let ghost p4 = p3 + ser_records(s@.circuit_throughput);
    let ghost p5 = p4 + ser_records(s@.circuit_retransmits);
    let ghost p6 = p5 + ser_records(s@.circuit_rtt);
    let ghost p7 = p6 + ser_records(s@.circuit_cake_drops);
    let ghost p8 = p7 + ser_records(s@.circuit_cake_marks);
    let ghost p9 = p8 + ser_records(s@.site_throughput);
    let ghost p10 = p9 + ser_records(s@.site_retransmits);
    let ghost p11 = p10 + ser_records(s@.site_rtt);
    let ghost p12 = p11 + ser_records(s@.site_cake_drops);
    push_u128(out, s.license_key);
    push_buf(out, &s.node_id);
    proof {
        assert((old(out)@ + a1) + ser_bytes(s@.node_id) =~= old(out)@ + p1);
    }
    push_buf(out, &s.node_name);
    proof {
        assert((old(out)@ + p1) + ser_bytes(s@.node_name) =~= old(out)@ + p2);
    }
    push_generals(out, &s.general);
    proof {
        assert((old(out)@ + p2) + ser_blobs(s@.general) =~= old(out)@ + p3);
    }
    push_records(out, &s.circuit_throughput);
    proof {
        assert((old(out)@ + p3) + ser_records(s@.circuit_throughput) =~= old(out)@ + p4);
    }
    push_records(out, &s.circuit_retransmits);
    proof {
        assert((old(out)@ + p4) + ser_records(s@.circuit_retransmits) =~= old(out)@ + p5);
    }
    push_records(out, &s.circuit_rtt);
    proof {
        assert((old(out)@ + p5) + ser_records(s@.circuit_rtt) =~= old(out)@ + p6);
    }
    push_records(out, &s.circuit_cake_drops);
    proof {
        assert((old(out)@ + p6) + ser_records(s@.circuit_cake_drops) =~= old(out)@ + p7);
    }
    push_records(out, &s.circuit_cake_marks);
    proof {
        assert((old(out)@ + p7) + ser_records(s@.circuit_cake_marks) =~= old(out)@ + p8);
    }
    push_records(out, &s.site_throughput);
    proof {
        assert((old(out)@ + p8) + ser_records(s@.site_throughput) =~= old(out)@ + p9);
    }
    push_records(out, &s.site_retransmits);
    proof {
        assert((old(out)@ + p9) + ser_records(s@.site_retransmits) =~= old(out)@ + p10);
    }
    push_records(out, &s.site_rtt);
    proof {
        assert((old(out)@ + p10) + ser_records(s@.site_rtt) =~= old(out)@ + p11);
    }
    push_records(out, &s.site_cake_drops);
    proof {
        assert((old(out)@ + p11) + ser_records(s@.site_cake_drops) =~= old(out)@ + p12);
    }
    push_records(out, &s.site_cake_marks);
    proof {
        assert((old(out)@ + p12) + ser_records(s@.site_cake_marks) =~= old(out)@ + ser_session(
            s@,
        ));
    }
}

/// Serializes one message to its uncompressed wire form.
fn encode_frame(m: &WsMessage) -> (r: Vec<u8>)
    ensures
        r@ == wire_bytes(m@),
{
    let mut out: Vec<u8> = Vec::new();
    match m {
        WsMessage::Hello { magic } => {
            push_u8(&mut out, 0);
            push_u32(&mut out, *magic);
            proof {
                assert(out@ =~= wire_bytes(m@));
            }
        },
        WsMessage::License { license } => {
            push_u8(&mut out, 1);
            push_u128(&mut out, *license);
            proof {
                assert(out@ =~= wire_bytes(m@));
            }
        },
        WsMessage::DataDump { data } => {
            push_u8(&mut out, 2);
            push_session(&mut out, data);
            proof {
                assert(out@ =~= wire_bytes(m@));
            }
        },
        WsMessage::RequestRemoteCommands { node_id } => {
            push_u8(&mut out, 3);
            push_buf(&mut out, node_id);
            proof {
                assert(out@ =~= wire_bytes(m@));
            }
        },
        WsMessage::CanSubmit => {
            push_u8(&mut out, 4);
            proof {
                assert(out@ =~= wire_bytes(m@));
            }
        },
        WsMessage::RemoteCommands { commands } => {
            push_u8(&mut out, 5);
            push_commands(&mut out, commands);
            proof {
                assert(out@ =~= wire_bytes(m@));
            }
        },
    }
    out
}

// ---------------------------------------------------------------------------
// Parser
// ---------------------------------------------------------------------------

fn parse_u8(b: &[u8], off: usize) -> (r: Option<(u8, usize)>)
    requires
        off <= b@.len(),
    ensures
        (r matches Some(p) ==> p.1 <= b@.len() && p_u8(b@.skip(off as int)) == Some(
            (p.0, b@.skip(p.1 as int)),
        )),
        (r is None ==> p_u8(b@.skip(off as int)) is None),
{
    if off < b.len() {
        let x = *slice_index_get(b, off);
        proof {
            assert(b@.skip(off as int)[0] == b@[off as int]);
            assert(b@.skip(off as int).skip(1) =~= b@.skip(off as int + 1));
        }
        Some((x, off + 1))
    } else {
        None
    }
}

fn parse_u32(b: &[u8], off: usize) -> (r: Option<(u32, usize)>)
    requires
        off <= b@.len(),
    ensures
        (r matches Some(p) ==> p.1 <= b@.len() && p_u32(b@.skip(off as int)) == Some(
            (p.0, b@.skip(p.1 as int)),
        )),
        (r is None ==> p_u32(b@.skip(off as int)) is None),
{
    if b.len() - off >= 4 {
        let s = slice_subrange(b, off, off + 4);
        let x = u32_from_le_bytes(s);
        proof {
            assert(b@.skip(off as int).take(4) =~= b@.subrange(off as int, off as int + 4));
            assert(b@.skip(off as int).skip(4) =~= b@.skip(off as int + 4));
        }
        Some((x, off + 4))
    } else {
        None
    }
}

fn parse_u64(b: &[u8], off: usize) -> (r: Option<(u64, usize)>)
    requires
        off <= b@.len(),
    ensures
        (r matches Some(p) ==> p.1 <= b@.len() && p_u64(b@.skip(off as int)) == Some(
            (p.0, b@.skip(p.1 as int)),
        )),
        (r is None ==> p_u64(b@.skip(off as int)) is None),
{
    if b.len() - off >= 8 {
        let s = slice_subrange(b, off, off + 8);
        let x = u64_from_le_bytes(s);
        proof {
            assert(b@.skip(off as int).take(8) =~= b@.subrange(off as int, off as int + 8));
            assert(b@.skip(off as int).skip(8) =~= b@.skip(off as int + 8));
        }
        Some((x, off + 8))
    } else {
        None
    }
}

fn parse_u128(b: &[u8], off: usize) -> (r: Option<(u128, usize)>)
    requires
        off <= b@.len(),
    ensures
        (r matches Some(p) ==> p.1 <= b@.len() && p_u128(b@.skip(off as int)) == Some(
            (p.0, b@.skip(p.1 as int)),
        )),
        (r is None ==> p_u128(b@.skip(off as int)) is None),
{
    if b.len() - off >= 16 {
        let s = slice_subrange(b, off, off + 16);
        let x = u128_from_le_bytes(s);
        proof {
            assert(b@.skip(off as int).take(16) =~= b@.subrange(off as int, off as int + 16));
            assert(b@.skip(off as int).skip(16) =~= b@.skip(off as int + 16));
        }
        Some((x, off + 16))
    } else {
        None
    }
}

fn parse_buf(b: &[u8], off: usize) -> (r: Option<(Vec<u8>, usize)>)
    requires
        off <= b@.len(),
    ensures
        (r matches Some(p) ==> p.1 <= b@.len() && (p_bytes(b@.skip(off as int)) matches Some(q)
            && q.0 == p.0@ && q.1 == b@.skip(p.1 as int))),
        (r is None ==> p_bytes(b@.skip(off as int)) is None),
{
    match parse_u64(b, off) {
        None => None,
        Some((n, off1)) => {
            let rem = b.len() - off1;
            if n <= rem as u64 {
                let l: usize = n as usize;
                let s = slice_subrange(b, off1, off1 + l);
                let v = slice_to_vec(s);
                proof {
                    assert(b@.skip(off1 as int).take(n as int) =~= b@.subrange(
                        off1 as int,
                        off1 as int + n,
                    ));
                    assert(b@.skip(off1 as int).skip(n as int) =~= b@.skip(off1 as int + n));
                }
                Some((v, off1 + l))
            } else {
                None
            }
        },
    }
}

fn parse_record(b: &[u8], off: usize) -> (r: Option<(StatRecord, usize)>)
    requires
        off <= b@.len(),
    ensures
        (r matches Some(p) ==> p.1 <= b@.len() && p_record(b@.skip(off as int)) == Some(
            (p.0, b@.skip(p.1 as int)),
        )),
        (r is None ==> p_record(b@.skip(off as int)) is None),
{
    let (timestamp, o1) = match parse_u64(b, off) {
        Some(p) => p,
        None => {
            return None;
        },
    };
    let (entity, o2) = match parse_u64(b, o1) {
        Some(p) => p,
        None => {
            return None;
        },
    };
    let (down, o3) = match parse_u64(b, o2) {
        Some(p) => p,
        None => {
            return None;
        },
    };
    let (up, o4) = match parse_u64(b, o3) {
        Some(p) => p,
        None => {
            return None;
        },
    };
    Some((StatRecord { timestamp, entity, down, up }, o4))
}

/// Glues a parsed prefix onto the outcome of parsing the remaining records.
spec fn combine_records(
    pre: Seq<StatRecord>,
    r: Option<(Seq<StatRecord>, Seq<u8>)>,
) -> Option<(Seq<StatRecord>, Seq<u8>)> {
    match r {
        None => None,
        Some((xs, rest)) => Some((pre + xs, rest)),
    }
}

/// Glues a parsed prefix onto the outcome of parsing the remaining blobs.
spec fn combine_blobs(
    pre: Seq<Seq<u8>>,
    r: Option<(Seq<Seq<u8>>, Seq<u8>)>,
) -> Option<(Seq<Seq<u8>>, Seq<u8>)> {
    match r {
        None => None,
        Some((xs, rest)) => Some((pre + xs, rest)),
    }
}

fn parse_records(b: &[u8], off: usize) -> (r: Option<(Vec<StatRecord>, usize)>)
    requires
        off <= b@.len(),
    ensures
        (r matches Some(p) ==> p.1 <= b@.len() && p_records(b@.skip(off as int)) == Some(
            (p.0@, b@.skip(p.1 as int)),
        )),
        (r is None ==> p_records(b@.skip(off as int)) is None),
{
    match parse_u64(b, off) {
        None => None,
        Some((n, off1)) => {
            let ghost target = p_records_n(b@.skip(off1 as int), n as nat);
            proof {
                match target {
                    Some((xs, rr)) => {
                        assert(Seq::<StatRecord>::empty() + xs =~= xs);
                    },
                    None => {},
                }
            }
            let mut acc: Vec<StatRecord> = Vec::new();
            let mut cur = off1;
            let mut i: u64 = 0;
            while i < n
                invariant
                    i <= n,
                    cur <= b@.len(),
                    off <= b@.len(),
                    off1 <= b@.len(),
                    acc@.len() == i,
                    p_u64(b@.skip(off as int)) == Some((n, b@.skip(off1 as int))),
                    target == p_records_n(b@.skip(off1 as int), n as nat),
                    combine_records(acc@, p_records_n(b@.skip(cur as int), (n - i) as nat))
                        == target,
                decreases n - i,
            {
                match parse_record(b, cur) {
                    None => {
                        proof {
                            assert(p_records_n(b@.skip(cur as int), (n - i) as nat) is None);
                        }
                        return None;
                    },
                    Some((x, cur2)) => {
                        proof {
                            match p_records_n(b@.skip(cur2 as int), (n - i - 1) as nat) {
                                Some((xs, rr)) => {
                                    assert(acc@.push(x) + xs =~= acc@ + (seq![x] + xs));
                                },
                                None => {},
                            }
                        }
                        acc.push(x);
                        cur = cur2;
                        i = i + 1;
                    },
                }
            }
            proof {
                assert(acc@ + Seq::<StatRecord>::empty() =~= acc@);
            }
            Some((acc, cur))
        },
    }
}

fn parse_generals(b: &[u8], off: usize) -> (r: Option<(Vec<GeneralRecord>, usize)>)
    requires
        off <= b@.len(),
    ensures
        (r matches Some(p) ==> p.1 <= b@.len() && p_blobs(b@.skip(off as int)) == Some(
            (general_views(p.0@), b@.skip(p.1 as int)),
        )),
        (r is None ==> p_blobs(b@.skip(off as int)) is None),
{
    match parse_u64(b, off) {
        None => None,
        Some((n, off1)) => {
            let ghost target = p_blobs_n(b@.skip(off1 as int), n as nat);
            proof {
                match target {
                    Some((xs, rr)) => {
                        assert(Seq::<Seq<u8>>::empty() + xs =~= xs);
                    },
                    None => {},
                }
                assert(general_views(Seq::<GeneralRecord>::empty()) =~= Seq::<Seq<u8>>::empty());
            }
            let mut acc: Vec<GeneralRecord> = Vec::new();
            let mut cur = off1;
            let mut i: u64 = 0;
            while i < n
                invariant
                    i <= n,
                    cur <= b@.len(),
                    off <= b@.len(),
                    off1 <= b@.len(),
                    acc@.len() == i,
                    p_u64(b@.skip(off as int)) == Some((n, b@.skip(off1 as int))),
                    target == p_blobs_n(b@.skip(off1 as int), n as nat),
                    combine_blobs(general_views(acc@), p_blobs_n(b@.skip(cur as int), (n - i) as nat))
                        == target,
                decreases n - i,
            {
                match parse_buf(b, cur) {
                    None => {
                        proof {
                            assert(p_blobs_n(b@.skip(cur as int), (n - i) as nat) is None);
                        }
                        return None;
                    },
                    Some((x, cur2)) => {
                        proof {
                            let gv = general_views(acc@);
                            assert(general_views(acc@.push(GeneralRecord { data: x })) =~= gv.push(
                                x@,
                            ));
                            match p_blobs_n(b@.skip(cur2 as int), (n - i - 1) as nat) {
                                Some((xs, rr)) => {
                                    assert(gv.push(x@) + xs =~= gv + (seq![x@] + xs));
                                },
                                None => {},
                            }
                        }
                        acc.push(GeneralRecord { data: x });
                        cur = cur2;
                        i = i + 1;
                    },
                }
            }
            proof {
                assert(general_views(acc@) + Seq::<Seq<u8>>::empty() =~= general_views(acc@));
            }
            Some((acc, cur))
        },
    }
}

fn parse_commands(b: &[u8], off: usize) -> (r: Option<(Vec<RemoteCommand>, usize)>)
    requires
        off <= b@.len(),
    ensures
        (r matches Some(p) ==> p.1 <= b@.len() && p_blobs(b@.skip(off as int)) == Some(
            (command_views(p.0@), b@.skip(p.1 as int)),
        )),
        (r is None ==> p_blobs(b@.skip(off as int)) is None),
{
    match parse_u64(b, off) {
        None => None,
        Some((n, off1)) => {
            let ghost target = p_blobs_n(b@.skip(off1 as int), n as nat);
            proof {
                match target {
                    Some((xs, rr)) => {
                        assert(Seq::<Seq<u8>>::empty() + xs =~= xs);
                    },
                    None => {},
                }
                assert(command_views(Seq::<RemoteCommand>::empty()) =~= Seq::<Seq<u8>>::empty());
            }
            let mut acc: Vec<RemoteCommand> = Vec::new();
            let mut cur = off1;
            let mut i: u64 = 0;
            while i < n
                invariant
                    i <= n,
                    cur <= b@.len(),
                    off <= b@.len(),
                    off1 <= b@.len(),
                    acc@.len() == i,
                    p_u64(b@.skip(off as int)) == Some((n, b@.skip(off1 as int))),
                    target == p_blobs_n(b@.skip(off1 as int), n as nat),
                    combine_blobs(command_views(acc@), p_blobs_n(b@.skip(cur as int), (n - i) as nat))
                        == target,
                decreases n - i,
            {
                match parse_buf(b, cur) {
                    None => {
                        proof {
                            assert(p_blobs_n(b@.skip(cur as int), (n - i) as nat) is None);
                        }
                        return None;
                    },
                    Some((x, cur2)) => {
                        proof {
                            let cv = command_views(acc@);
                            assert(command_views(acc@.push(RemoteCommand { data: x })) =~= cv.push(
                                x@,
                            ));
                            match p_blobs_n(b@.skip(cur2 as int), (n - i - 1) as nat) {
                                Some((xs, rr)) => {
                                    assert(cv.push(x@) + xs =~= cv + (seq![x@] + xs));
                                },
                                None => {},
                            }
                        }
                        acc.push(RemoteCommand { data: x });
                        cur = cur2;
                        i = i + 1;
                    },
                }
            }
            proof {
                assert(command_views(acc@) + Seq::<Seq<u8>>::empty() =~= command_views(acc@));
            }
            Some((acc, cur))
        },
    }
}

#[verifier::rlimit(100)]
#[verifier::spinoff_prover]
fn parse_session(b: &[u8], off: usize) -> (r: Option<(IngestSession, usize)>)
    requires
        off <= b@.len(),
    ensures
        (r matches Some(p) ==> p.1 <= b@.len() && (p_session(b@.skip(off as int)) matches Some(q)
            && q.0 == p.0@ && q.1 == b@.skip(p.1 as int))),
        (r is None ==> p_session(b@.skip(off as int)) is None),
{
    let (license_key, o1) = match parse_u128(b, off) {
        Some(p) => p,
        None => {
            return None;
        },
    };
    let (node_id, o2) = match parse_buf(b, o1) {
        Some(p) => p,
        None => {
            return None;
        },
    };
    let (node_name, o3) = match parse_buf(b, o2) {
        Some(p) => p,
        None => {
            return None;
        },
    };
    let (general, o4) = match parse_generals(b, o3) {
        Some(p) => p,
        None => {
            return None;
        },
    };
    let (circuit_throughput, o5) = match parse_records(b, o4) {
        Some(p) => p,
        None => {
            return None;
        },
    };
    let (circuit_retransmits, o6) = match parse_records(b, o5) {
        Some(p) => p,
        None => {
            return None;
        },
    };
    let (circuit_rtt, o7) = match parse_records(b, o6) {
        Some(p) => p,
        None => {
            return None;
        },
    };
    let (circuit_cake_drops, o8) = match parse_records(b, o7) {
        Some(p) => p,
        None => {
            return None;
        },
    };
    let (circuit_cake_marks, o9) = match parse_records(b, o8) {
        Some(p) => p,
        None => {
            return None;
        },
    };
    let (site_throughput, o10) = match parse_records(b, o9) {
        Some(p) => p,
        None => {
            return None;
        },
    };
    let (site_retransmits, o11) = match parse_records(b, o10) {
        Some(p) => p,
        None => {
            return None;
        },
    };
    let (site_rtt, o12) = match parse_records(b, o11) {
        Some(p) => p,
        None => {
            return None;
        },
    };
    let (site_cake_drops, o13) = match parse_records(b, o12) {
        Some(p) => p,
        None => {
            return None;
        },
    };
    let (site_cake_marks, o14) = match parse_records(b, o13) {
        Some(p) => p,
        None => {
            return None;
        },
    };
    Some(
        (
            IngestSession {
                license_key,
                node_id,
                node_name,
                general,
                circuit_throughput,
                circuit_retransmits,
                circuit_rtt,
                circuit_cake_drops,
                circuit_cake_marks,
                site_throughput,
                site_retransmits,
                site_rtt,
                site_cake_drops,
                site_cake_marks,
            },
            o14,
        ),
    )
}

/// Parses one whole uncompressed frame; trailing bytes are rejected.
fn parse_frame(b: &[u8]) -> (r: Option<WsMessage>)
    ensures
        (r matches Some(m) ==> p_msg(b@) == Some(m@)),
        (r is None ==> p_msg(b@) is None),
{
    proof {
        assert(b@.skip(0) =~= b@);
    }
    match parse_u8(b, 0) {
        None => None,
        Some((tag, off)) => {
            if tag == 0 {
                match parse_u32(b, off) {
                    None => None,
                    Some((magic, o2)) => {
                        if o2 == b.len() {
                            Some(WsMessage::Hello { magic })
                        } else {
                            None
                        }
                    },
                }
            } else if tag == 1 {
                match parse_u128(b, off) {
                    None => None,
                    Some((license, o2)) => {
                        if o2 == b.len() {
                            Some(WsMessage::License { license })
                        } else {
                            None
                        }
                    },
                }
            } else if tag == 2 {
                match parse_session(b, off) {
                    None => None,
                    Some((data, o2)) => {
                        if o2 == b.len() {
                            Some(WsMessage::DataDump { data })
                        } else {
                            None
                        }
                    },
                }
            } else if tag == 3 {
                match parse_buf(b, off) {
                    None => None,
                    Some((node_id, o2)) => {
                        if o2 == b.len() {
                            Some(WsMessage::RequestRemoteCommands { node_id })
                        } else {
                            None
                        }
                    },
                }
            } else if tag == 4 {
                if off == b.len() {
                    Some(WsMessage::CanSubmit)
                } else {
                    None
                }
            } else if tag == 5 {
                match parse_commands(b, off) {
                    None => None,
                    Some((commands, o2)) => {
                        if o2 == b.len() {
                            Some(WsMessage::RemoteCommands { commands })
                        } else {
                            None
                        }
                    },
                }
            } else {
                None
            }
        },
    }
}

// ---------------------------------------------------------------------------
// Compression: the only trusted step of the codec
// ---------------------------------------------------------------------------

/// What DEFLATE compression at this codec's fixed level produces for the
/// given input; a pure function of the input bytes.
pub uninterp spec fn deflate_of(b: Seq<u8>) -> Seq<u8>;

/// What DEFLATE decompression produces for the given input: the original
/// bytes for a valid stream, nothing otherwise; a pure function of the
/// input bytes.
pub uninterp spec fn inflate_of(b: Seq<u8>) -> Option<Seq<u8>>;

/// What one received transport frame decodes to: decompression followed by
/// parsing.
pub open spec fn spec_decode(b: Seq<u8>) -> Option<SpecMessage> {
    match inflate_of(b) {
        None => None,
        Some(raw) => p_msg(raw),
    }
}

/// Relies on miniz_oxide::deflate::compress_to_vec: compression at a fixed
/// level is deterministic in the input bytes, and DEFLATE is lossless, so
/// decompressing the output restores the input exactly.
#[verifier::external_body]
fn compress_frame(data: &Vec<u8>) -> (r: Vec<u8>)
    ensures
        r@ == deflate_of(data@),
        inflate_of(r@) == Some(data@),
{
    miniz_oxide::deflate::compress_to_vec(data.as_slice(), 10)
}

/// Relies on miniz_oxide::inflate::decompress_to_vec: decompression is
/// deterministic in the input bytes and fails exactly on input that is not
/// a valid DEFLATE stream.
#[verifier::external_body]
fn decompress_frame(data: &[u8]) -> (r: Option<Vec<u8>>)
    ensures
        (r matches Some(v) ==> inflate_of(data@) == Some(v@)),
        (r is None ==> inflate_of(data@) is None),
{
    match miniz_oxide::inflate::decompress_to_vec(data) {
        Ok(v) => Some(v),
        Err(_) => None,
    }
}

// ---------------------------------------------------------------------------
// The codec's public face
// ---------------------------------------------------------------------------

impl WsMessage {
    /// Serializes the message and compresses the result into one transport
    /// frame. Returns the raw length, the compressed length (both
    /// diagnostic only), and the frame bytes.
    pub fn to_bytes(&self) -> (r: (usize, usize, Vec<u8>))
        ensures
            r.2@ == deflate_of(wire_bytes(self@)),
            inflate_of(r.2@) == Some(wire_bytes(self@)),
            r.0 == wire_bytes(self@).len(),
            r.1 == r.2@.len(),
    {
        let raw = encode_frame(self);
        let compressed = compress_frame(&raw);
        let raw_len: usize = raw.len();
        let compressed_len: usize = compressed.len();
        (raw_len, compressed_len, compressed)
    }

    /// Decompresses and parses one received frame. Fails with `Decompress`
    /// exactly on bytes that are not a valid DEFLATE stream, and with
    /// `Malformed` exactly when the decompressed payload is not the
    /// serialization of any message (truncated data, trailing bytes, or an
    /// unrecognized tag).
    pub fn from_bytes(bytes: &[u8]) -> (r: Result<WsMessage, DecodeError>)
        ensures
            (r matches Ok(m) ==> (inflate_of(bytes@) matches Some(raw) && p_msg(raw) == Some(
                m@,
            ))),
            (r matches Ok(m) ==> spec_decode(bytes@) == Some(m@)),
            (r is Err <==> spec_decode(bytes@) is None),
            (r == Err::<WsMessage, DecodeError>(DecodeError::Decompress) <==> inflate_of(bytes@)
                is None),
            (r == Err::<WsMessage, DecodeError>(DecodeError::Malformed) <==> (inflate_of(bytes@)
                matches Some(raw) && p_msg(raw) is None)),
    {
        match decompress_frame(bytes) {
            None => Err(DecodeError::Decompress),
            Some(raw) => match parse_frame(raw.as_slice()) {
                Some(m) => Ok(m),
                None => Err(DecodeError::Malformed),
            },
        }
    }
}


// ---------------------------------------------------------------------------
// The round-trip law, end to end
// ---------------------------------------------------------------------------

fn establish_general_wf(v: &Vec<GeneralRecord>)
    ensures
        blobs_wf(general_views(v@)),
{
    let n = v.len();
    let mut i: usize = 0;
    while i < n
        invariant
            i <= n,
            n == v@.len(),
            forall|j: int| 0 <= j < i ==> (#[trigger] general_views(v@)[j]).len() <= u64::MAX,
        decreases n - i,
    {
        let _len: usize = v[i].data.len();
        proof {
            assert(general_views(v@)[i as int] == v@[i as int]@);
        }
        i += 1;
    }
}

fn establish_commands_wf(v: &Vec<RemoteCommand>)
    ensures
        blobs_wf(command_views(v@)),
{
    let n = v.len();
    let mut i: usize = 0;
    while i < n
        invariant
            i <= n,
            n == v@.len(),
            forall|j: int| 0 <= j < i ==> (#[trigger] command_views(v@)[j]).len() <= u64::MAX,
        decreases n - i,
    {
        let _len: usize = v[i].data.len();
        proof {
            assert(command_views(v@)[i as int] == v@[i as int]@);
        }
        i += 1;
    }
}

fn establish_session_wf(s: &IngestSession)
    ensures
        session_wf(s@),
{
    let _n1: usize = s.node_id.len();
    let _n2: usize = s.node_name.len();
    establish_general_wf(&s.general);
    let _c1: usize = s.circuit_throughput.len();
    let _c2: usize = s.circuit_retransmits.len();
    let _c3: usize = s.circuit_rtt.len();
    let _c4: usize = s.circuit_cake_drops.len();
    let _c5: usize = s.circuit_cake_marks.len();
    let _c6: usize = s.site_throughput.len();
    let _c7: usize = s.site_retransmits.len();
    let _c8: usize = s.site_rtt.len();
    let _c9: usize = s.site_cake_drops.len();
    let _c10: usize = s.site_cake_marks.len();
}

/// Every executable message is well formed: the sequences a `Vec` can hold
/// always fit the wire format's `u64` length fields.
fn establish_msg_wf(m: &WsMessage)
    ensures
        msg_wf(m@),
{
    match m {
        WsMessage::Hello { magic: _ } => (),
        WsMessage::License { license: _ } => (),
        WsMessage::DataDump { data } => establish_session_wf(data),
        WsMessage::RequestRemoteCommands { node_id } => {
            let _len: usize = node_id.len();
        },
        WsMessage::CanSubmit => (),
        WsMessage::RemoteCommands { commands } => establish_commands_wf(commands),
    }
}

/// The round-trip law, exercised end to end: decoding the frame `to_bytes`
/// produces yields a message whose content equals the original message's.
pub fn round_trip(m: &WsMessage) -> (r: WsMessage)
    ensures
        r@ == m@,
{
    establish_msg_wf(m);
    proof {
        lemma_wire_round_trip(m@);
    }
    let frame = m.to_bytes().2;
    match WsMessage::from_bytes(frame.as_slice()) {
        Ok(back) => back,
        Err(_) => {
            proof {
                assert(false);
            }
            WsMessage::CanSubmit
        },
    }
}

} // verus!

