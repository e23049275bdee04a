//! The wire format: a tagged, length-prefixed binary serialization of
//! protocol messages, defined here as spec-level functions together with the
//! proof that parsing inverts serialization.
//!
//! Layout: every integer is little-endian and fixed-width; a byte string is
//! a `u64` length followed by the bytes; a record sequence is a `u64` count
//! followed by fixed-width records; a message is a one-byte variant tag
//! followed by its payload, with no trailing bytes allowed.

use vstd::bytes::{
    spec_u128_to_le_bytes, spec_u32_to_le_bytes, spec_u32_from_le_bytes, spec_u64_to_le_bytes,
    spec_u64_from_le_bytes, spec_u128_from_le_bytes, lemma_auto_spec_u32_to_from_le_bytes,
    lemma_auto_spec_u64_to_from_le_bytes, lemma_auto_spec_u128_to_from_le_bytes,
};
use vstd::prelude::*;

use crate::records::StatRecord;

verus! {

// ---------------------------------------------------------------------------
// Spec-level message model
// ---------------------------------------------------------------------------

/// The mathematical content of a session payload: the identity fields and
/// the drained contents of the general category and the ten statistic
/// categories.
pub ghost struct SpecSession {
    pub license: u128,
    pub node_id: Seq<u8>,
    pub node_name: Seq<u8>,
    pub general: Seq<Seq<u8>>,
    pub circuit_throughput: Seq<StatRecord>,
    pub circuit_retransmits: Seq<StatRecord>,
    pub circuit_rtt: Seq<StatRecord>,
    pub circuit_cake_drops: Seq<StatRecord>,
    pub circuit_cake_marks: Seq<StatRecord>,
    pub site_throughput: Seq<StatRecord>,
    pub site_retransmits: Seq<StatRecord>,
    pub site_rtt: Seq<StatRecord>,
    pub site_cake_drops: Seq<StatRecord>,
    pub site_cake_marks: Seq<StatRecord>,
}

/// The mathematical content of one protocol message.
pub ghost enum SpecMessage {
    Hello { magic: u32 },
    License { license: u128 },
    DataDump { data: SpecSession },
    RequestRemoteCommands { node_id: Seq<u8> },
    CanSubmit,
    RemoteCommands { commands: Seq<Seq<u8>> },
}

/// Every length that the wire format writes as a `u64` must fit in one.
pub open spec fn blobs_wf(bs: Seq<Seq<u8>>) -> bool {
    &&& bs.len() <= u64::MAX
    &&& forall|i: int| 0 <= i < bs.len() ==> (#[trigger] bs[i]).len() <= u64::MAX
}

pub open spec fn session_wf(s: SpecSession) -> bool {
    &&& s.node_id.len() <= u64::MAX
    &&& s.node_name.len() <= u64::MAX
    &&& blobs_wf(s.general)
    &&& s.circuit_throughput.len() <= u64::MAX
    &&& s.circuit_retransmits.len() <= u64::MAX
    &&& s.circuit_rtt.len() <= u64::MAX
    &&& s.circuit_cake_drops.len() <= u64::MAX
    &&& s.circuit_cake_marks.len() <= u64::MAX
    &&& s.site_throughput.len() <= u64::MAX
    &&& s.site_retransmits.len() <= u64::MAX
    &&& s.site_rtt.len() <= u64::MAX
    &&& s.site_cake_drops.len() <= u64::MAX
    &&& s.site_cake_marks.len() <= u64::MAX
}

pub open spec fn msg_wf(m: SpecMessage) -> bool {
    match m {
        SpecMessage::Hello { magic } => true,
        SpecMessage::License { license } => true,
        SpecMessage::DataDump { data } => session_wf(data),
        SpecMessage::RequestRemoteCommands { node_id } => node_id.len() <= u64::MAX,
        SpecMessage::CanSubmit => true,
        SpecMessage::RemoteCommands { commands } => blobs_wf(commands),
    }
}

// ---------------------------------------------------------------------------
// Spec-level serializer
// ---------------------------------------------------------------------------

/// A byte string: `u64` length, then the bytes.
pub open spec fn ser_bytes(s: Seq<u8>) -> Seq<u8> {
    spec_u64_to_le_bytes(s.len() as u64) + s
}

/// One statistic record: four fixed-width fields.
pub open spec fn ser_record(r: StatRecord) -> Seq<u8> {
    spec_u64_to_le_bytes(r.timestamp) + spec_u64_to_le_bytes(r.entity) + spec_u64_to_le_bytes(
        r.down,
    ) + spec_u64_to_le_bytes(r.up)
}

pub open spec fn ser_records_body(rs: Seq<StatRecord>) -> Seq<u8>
    decreases rs.len(),
{
    if rs.len() == 0 {
        Seq::empty()
    } else {
        ser_record(rs[0]) + ser_records_body(rs.skip(1))
    }
}

/// A record sequence: `u64` count, then the records.
pub open spec fn ser_records(rs: Seq<StatRecord>) -> Seq<u8> {
    spec_u64_to_le_bytes(rs.len() as u64) + ser_records_body(rs)
}

pub open spec fn ser_blobs_body(bs: Seq<Seq<u8>>) -> Seq<u8>
    decreases bs.len(),
{
    if bs.len() == 0 {
        Seq::empty()
    } else {
        ser_bytes(bs[0]) + ser_blobs_body(bs.skip(1))
    }
}

/// A sequence of byte strings: `u64` count, then the length-prefixed blobs.
pub open spec fn ser_blobs(bs: Seq<Seq<u8>>) -> Seq<u8> {
    spec_u64_to_le_bytes(bs.len() as u64) + ser_blobs_body(bs)
}

/// A session payload: identity fields, the general category, then the ten
/// statistic categories in a fixed order.
pub open spec fn ser_session(s: SpecSession) -> Seq<u8> {
    spec_u128_to_le_bytes(s.license) + ser_bytes(s.node_id) + ser_bytes(s.node_name) + ser_blobs(
        s.general,
    ) + ser_records(s.circuit_throughput) + ser_records(s.circuit_retransmits) + ser_records(
        s.circuit_rtt,
    ) + ser_records(s.circuit_cake_drops) + ser_records(s.circuit_cake_marks) + ser_records(
        s.site_throughput,
    ) + ser_records(s.site_retransmits) + ser_records(s.site_rtt) + ser_records(
        s.site_cake_drops,
    ) + ser_records(s.site_cake_marks)
}

/// A whole frame before compression: a one-byte variant tag, then the
/// variant's payload.
pub open spec fn wire_bytes(m: SpecMessage) -> Seq<u8> {
    match m {
        SpecMessage::Hello { magic } => seq![0u8] + spec_u32_to_le_bytes(magic),
        SpecMessage::License { license } => seq![1u8] + spec_u128_to_le_bytes(license),
        SpecMessage::DataDump { data } => seq![2u8] + ser_session(data),
        SpecMessage::RequestRemoteCommands { node_id } => seq![3u8] + ser_bytes(node_id),
        SpecMessage::CanSubmit => seq![4u8],
        SpecMessage::RemoteCommands { commands } => seq![5u8] + ser_blobs(commands),
    }
}

// ---------------------------------------------------------------------------
// Spec-level parser
// ---------------------------------------------------------------------------

pub open spec fn p_u8(b: Seq<u8>) -> Option<(u8, Seq<u8>)> {
    if b.len() >= 1 {
        Some((b[0], b.skip(1)))
    } else {
        None
    }
}

pub open spec fn p_u32(b: Seq<u8>) -> Option<(u32, Seq<u8>)> {
    if b.len() >= 4 {
        Some((spec_u32_from_le_bytes(b.take(4)), b.skip(4)))
    } else {
        None
    }
}

pub open spec fn p_u64(b: Seq<u8>) -> Option<(u64, Seq<u8>)> {
    if b.len() >= 8 {
        Some((spec_u64_from_le_bytes(b.take(8)), b.skip(8)))
    } else {
        None
    }
}

pub open spec fn p_u128(b: Seq<u8>) -> Option<(u128, Seq<u8>)> {
    if b.len() >= 16 {
        Some((spec_u128_from_le_bytes(b.take(16)), b.skip(16)))
    } else {
        None
    }
}

pub open spec fn p_bytes(b: Seq<u8>) -> Option<(Seq<u8>, Seq<u8>)> {
    match p_u64(b) {
        None => None,
        Some((n, b1)) => if n <= b1.len() {
            Some((b1.take(n as int), b1.skip(n as int)))
        } else {
            None
        },
    }
}

pub open spec fn p_record(b: Seq<u8>) -> Option<(StatRecord, Seq<u8>)> {
    match p_u64(b) {
        None => None,
        Some((t, b1)) => match p_u64(b1) {
            None => None,
            Some((e, b2)) => match p_u64(b2) {
                None => None,
                Some((d, b3)) => match p_u64(b3) {
                    None => None,
                    Some((u, b4)) => Some(
                        (StatRecord { timestamp: t, entity: e, down: d, up: u }, b4),
                    ),
                },
            },
        },
    }
}

pub open spec fn p_records_n(b: Seq<u8>, n: nat) -> Option<(Seq<StatRecord>, Seq<u8>)>
    decreases n,
{
    if n == 0 {
        Some((Seq::empty(), b))
    } else {
        match p_record(b) {
            None => None,
            Some((x, b1)) => match p_records_n(b1, (n - 1) as nat) {
                None => None,
                Some((xs, b2)) => Some((seq![x] + xs, b2)),
            },
        }
    }
}

pub open spec fn p_records(b: Seq<u8>) -> Option<(Seq<StatRecord>, Seq<u8>)> {
    match p_u64(b) {
        None => None,
        Some((n, b1)) => p_records_n(b1, n as nat),
    }
}

pub open spec fn p_blobs_n(b: Seq<u8>, n: nat) -> Option<(Seq<Seq<u8>>, Seq<u8>)>
    decreases n,
{
    if n == 0 {
        Some((Seq::empty(), b))
    } else {
        match p_bytes(b) {
            None => None,
            Some((x, b1)) => match p_blobs_n(b1, (n - 1) as nat) {
                None => None,
                Some((xs, b2)) => Some((seq![x] + xs, b2)),
            },
        }
    }
}

pub open spec fn p_blobs(b: Seq<u8>) -> Option<(Seq<Seq<u8>>, Seq<u8>)> {
    match p_u64(b) {
        None => None,
        Some((n, b1)) => p_blobs_n(b1, n as nat),
    }
}

pub open spec fn p_session(b: Seq<u8>) -> Option<(SpecSession, Seq<u8>)> {
    match p_u128(b) {
        None => None,
        Some((license, b1)) => match p_bytes(b1) {
            None => None,
            Some((node_id, b2)) => match p_bytes(b2) {
                None => None,
                Some((node_name, b3)) => match p_blobs(b3) {
                    None => None,
                    Some((general, b4)) => match p_records(b4) {
                        None => None,
                        Some((ct, b5)) => match p_records(b5) {
                            None => None,
                            Some((cr, b6)) => match p_records(b6) {
                                None => None,
                                Some((crtt, b7)) => match p_records(b7) {
                                    None => None,
                                    Some((ccd, b8)) => match p_records(b8) {
                                        None => None,
                                        Some((ccm, b9)) => match p_records(b9) {
                                            None => None,
                                            Some((st, b10)) => match p_records(b10) {
                                                None => None,
                                                Some((sr, b11)) => match p_records(b11) {
                                                    None => None,
                                                    Some((srtt, b12)) => match p_records(b12) {
                                                        None => None,
                                                        Some((scd, b13)) => match p_records(b13) {
                                                            None => None,
                                                            Some((scm, b14)) => Some(
                                                                (
                                                                    SpecSession {
                                                                        license,
                                                                        node_id,
                                                                        node_name,
                                                                        general,
                                                                        circuit_throughput: ct,
                                                                        circuit_retransmits: cr,
                                                                        circuit_rtt: crtt,
                                                                        circuit_cake_drops: ccd,
                                                                        circuit_cake_marks: ccm,
                                                                        site_throughput: st,
                                                                        site_retransmits: sr,
                                                                        site_rtt: srtt,
                                                                        site_cake_drops: scd,
                                                                        site_cake_marks: scm,
                                                                    },
                                                                    b14,
                                                                ),
                                                            ),
                                                        },
                                                    },
                                                },
                                            },
                                        },
                                    },
                                },
                            },
                        },
                    },
                },
            },
        },
    }
}

/// Parses one whole frame: the tag byte decides the variant, the payload
/// must parse, and no bytes may remain.
pub open spec fn p_msg(b: Seq<u8>) -> Option<SpecMessage> {
    match p_u8(b) {
        None => None,
        Some((tag, r)) => if tag == 0 {
            match p_u32(r) {
                None => None,
                Some((magic, r1)) => if r1.len() == 0 {
                    Some(SpecMessage::Hello { magic })
                } else {
                    None
                },
            }
        } else if tag == 1 {
            match p_u128(r) {
                None => None,
                Some((license, r1)) => if r1.len() == 0 {
                    Some(SpecMessage::License { license })
                } else {
                    None
                },
            }
        } else if tag == 2 {
            match p_session(r) {
                None => None,
                Some((data, r1)) => if r1.len() == 0 {
                    Some(SpecMessage::DataDump { data })
                } else {
                    None
                },
            }
        } else if tag == 3 {
            match p_bytes(r) {
                None => None,
                Some((node_id, r1)) => if r1.len() == 0 {
                    Some(SpecMessage::RequestRemoteCommands { node_id })
                } else {
                    None
                },
            }
        } else if tag == 4 {
            if r.len() == 0 {
                Some(SpecMessage::CanSubmit)
            } else {
                None
            }
        } else if tag == 5 {
            match p_blobs(r) {
                None => None,
                Some((commands, r1)) => if r1.len() == 0 {
                    Some(SpecMessage::RemoteCommands { commands })
                } else {
                    None
                },
            }
        } else {
            None
        },
    }
}

// ---------------------------------------------------------------------------
// Round-trip lemmas: parsing inverts serialization
// ---------------------------------------------------------------------------

/// Appending one record to a sequence appends its serialization.
pub proof fn lemma_ser_records_body_push(rs: Seq<StatRecord>, x: StatRecord)
    ensures
        ser_records_body(rs.push(x)) == ser_records_body(rs) + ser_record(x),
    decreases rs.len(),
{
    let rp = rs.push(x);
    if rs.len() == 0 {
        assert(rp[0] == x);
        assert(rp.skip(1) =~= Seq::<StatRecord>::empty());
        assert(ser_records_body(Seq::<StatRecord>::empty()) == Seq::<u8>::empty());
        assert(ser_records_body(rp) == ser_record(x) + Seq::<u8>::empty());
        assert(ser_record(x) + Seq::<u8>::empty() =~= ser_record(x));
        assert(Seq::<u8>::empty() + ser_record(x) =~= ser_record(x));
    } else {
        assert(rp[0] == rs[0]);
        assert(rp.skip(1) =~= rs.skip(1).push(x));
        lemma_ser_records_body_push(rs.skip(1), x);
        assert(ser_records_body(rp) == ser_record(rs[0]) + (ser_records_body(rs.skip(1))
            + ser_record(x)));
        assert(ser_record(rs[0]) + (ser_records_body(rs.skip(1)) + ser_record(x)) =~= (ser_record(
            rs[0],
        ) + ser_records_body(rs.skip(1))) + ser_record(x));
        assert(ser_records_body(rs) == ser_record(rs[0]) + ser_records_body(rs.skip(1)));
    }
}

/// Appending one byte string to a sequence appends its serialization.
pub proof fn lemma_ser_blobs_body_push(bs: Seq<Seq<u8>>, x: Seq<u8>)
    ensures
        ser_blobs_body(bs.push(x)) == ser_blobs_body(bs) + ser_bytes(x),
    decreases bs.len(),
{
    let bp = bs.push(x);
    if bs.len() == 0 {
        assert(bp[0] == x);
        assert(bp.skip(1) =~= Seq::<Seq<u8>>::empty());
        assert(ser_blobs_body(Seq::<Seq<u8>>::empty()) == Seq::<u8>::empty());
        assert(ser_blobs_body(bp) == ser_bytes(x) + Seq::<u8>::empty());
        assert(ser_bytes(x) + Seq::<u8>::empty() =~= ser_bytes(x));
        assert(Seq::<u8>::empty() + ser_bytes(x) =~= ser_bytes(x));
    } else {
        assert(bp[0] == bs[0]);
        assert(bp.skip(1) =~= bs.skip(1).push(x));
        lemma_ser_blobs_body_push(bs.skip(1), x);
        assert(ser_blobs_body(bp) == ser_bytes(bs[0]) + (ser_blobs_body(bs.skip(1)) + ser_bytes(
            x,
        )));
        assert(ser_bytes(bs[0]) + (ser_blobs_body(bs.skip(1)) + ser_bytes(x)) =~= (ser_bytes(
            bs[0],
        ) + ser_blobs_body(bs.skip(1))) + ser_bytes(x));
        assert(ser_blobs_body(bs) == ser_bytes(bs[0]) + ser_blobs_body(bs.skip(1)));
    }
}

proof fn lemma_p_u8(t: u8, rest: Seq<u8>)
    ensures
        p_u8(seq![t] + rest) == Some((t, rest)),
{
    let b = seq![t] + rest;
    assert(b[0] == t);
    assert(b.skip(1) =~= rest);
}

proof fn lemma_p_u32(x: u32, rest: Seq<u8>)
    ensures
        p_u32(spec_u32_to_le_bytes(x) + rest) == Some((x, rest)),
{
    lemma_auto_spec_u32_to_from_le_bytes();
    let b = spec_u32_to_le_bytes(x) + rest;
    assert(b.take(4) =~= spec_u32_to_le_bytes(x));
    assert(b.skip(4) =~= rest);
}

proof fn lemma_p_u64(x: u64, rest: Seq<u8>)
    ensures
        p_u64(spec_u64_to_le_bytes(x) + rest) == Some((x, rest)),
{
    lemma_auto_spec_u64_to_from_le_bytes();
    let b = spec_u64_to_le_bytes(x) + rest;
    assert(b.take(8) =~= spec_u64_to_le_bytes(x));
    assert(b.skip(8) =~= rest);
}

proof fn lemma_p_u128(x: u128, rest: Seq<u8>)
    ensures
        p_u128(spec_u128_to_le_bytes(x) + rest) == Some((x, rest)),
{
    lemma_auto_spec_u128_to_from_le_bytes();
    let b = spec_u128_to_le_bytes(x) + rest;
    assert(b.take(16) =~= spec_u128_to_le_bytes(x));
    assert(b.skip(16) =~= rest);
}

proof fn lemma_p_bytes(s: Seq<u8>, rest: Seq<u8>)
    requires
        s.len() <= u64::MAX,
    ensures
        p_bytes(ser_bytes(s) + rest) == Some((s, rest)),
{
    let b = ser_bytes(s) + rest;
    assert(b =~= spec_u64_to_le_bytes(s.len() as u64) + (s + rest));
    lemma_p_u64(s.len() as u64, s + rest);
    assert((s + rest).take(s.len() as int) =~= s);
    assert((s + rest).skip(s.len() as int) =~= rest);
}

proof fn lemma_p_record(r: StatRecord, rest: Seq<u8>)
    ensures
        p_record(ser_record(r) + rest) == Some((r, rest)),
{
    let t3 = spec_u64_to_le_bytes(r.up) + rest;
    let t2 = spec_u64_to_le_bytes(r.down) + t3;
    let t1 = spec_u64_to_le_bytes(r.entity) + t2;
    let b = ser_record(r) + rest;
    assert(b =~= spec_u64_to_le_bytes(r.timestamp) + t1);
    lemma_p_u64(r.timestamp, t1);
    lemma_p_u64(r.entity, t2);
    lemma_p_u64(r.down, t3);
    lemma_p_u64(r.up, rest);
}

proof fn lemma_p_records_body(rs: Seq<StatRecord>, rest: Seq<u8>)
    ensures
        p_records_n(ser_records_body(rs) + rest, rs.len()) == Some((rs, rest)),
    decreases rs.len(),
{
    if rs.len() == 0 {
        assert(ser_records_body(rs) + rest =~= rest);
        assert(rs =~= Seq::<StatRecord>::empty());
    } else {
        let tail = ser_records_body(rs.skip(1)) + rest;
        assert(ser_records_body(rs) + rest =~= ser_record(rs[0]) + tail);
        lemma_p_record(rs[0], tail);
        lemma_p_records_body(rs.skip(1), rest);
        assert(seq![rs[0]] + rs.skip(1) =~= rs);
    }
}

proof fn lemma_p_records(rs: Seq<StatRecord>, rest: Seq<u8>)
    requires
        rs.len() <= u64::MAX,
    ensures
        p_records(ser_records(rs) + rest) == Some((rs, rest)),
{
    let tail = ser_records_body(rs) + rest;
    assert(ser_records(rs) + rest =~= spec_u64_to_le_bytes(rs.len() as u64) + tail);
    lemma_p_u64(rs.len() as u64, tail);
    lemma_p_records_body(rs, rest);
}

proof fn lemma_p_blobs_body(bs: Seq<Seq<u8>>, rest: Seq<u8>)
    requires
        forall|i: int| 0 <= i < bs.len() ==> (#[trigger] bs[i]).len() <= u64::MAX,
    ensures
        p_blobs_n(ser_blobs_body(bs) + rest, bs.len()) == Some((bs, rest)),
    decreases bs.len(),
{
    if bs.len() == 0 {
        assert(ser_blobs_body(bs) + rest =~= rest);
        assert(bs =~= Seq::<Seq<u8>>::empty());
    } else {
        let tail = ser_blobs_body(bs.skip(1)) + rest;
        assert(ser_blobs_body(bs) + rest =~= ser_bytes(bs[0]) + tail);
        lemma_p_bytes(bs[0], tail);
        assert(forall|i: int|
            0 <= i < bs.skip(1).len() ==> (#[trigger] bs.skip(1)[i]).len() <= u64::MAX);
        lemma_p_blobs_body(bs.skip(1), rest);
        assert(seq![bs[0]] + bs.skip(1) =~= bs);
    }
}

proof fn lemma_p_blobs(bs: Seq<Seq<u8>>, rest: Seq<u8>)
    requires
        blobs_wf(bs),
    ensures
        p_blobs(ser_blobs(bs) + rest) == Some((bs, rest)),
{
    let tail = ser_blobs_body(bs) + rest;
    assert(ser_blobs(bs) + rest =~= spec_u64_to_le_bytes(bs.len() as u64) + tail);
    lemma_p_u64(bs.len() as u64, tail);
    lemma_p_blobs_body(bs, rest);
}

#[verifier::rlimit(100)]
#[verifier::spinoff_prover]
proof fn lemma_p_session(s: SpecSession, rest: Seq<u8>)
    requires
        session_wf(s),
    ensures
        p_session(ser_session(s) + rest) == Some((s, rest)),
{
    let t13 = ser_records(s.site_cake_marks) + rest;
    let t12 = ser_records(s.site_cake_drops) + t13;
    let t11 = ser_records(s.site_rtt) + t12;
    let t10 = ser_records(s.site_retransmits) + t11;
    let t9 = ser_records(s.site_throughput) + t10;
    let t8 = ser_records(s.circuit_cake_marks) + t9;
    let t7 = ser_records(s.circuit_cake_drops) + t8;
    let t6 = ser_records(s.circuit_rtt) + t7;
    let t5 = ser_records(s.circuit_retransmits) + t6;
    let t4 = ser_records(s.circuit_throughput) + t5;
    let t3 = ser_blobs(s.general) + t4;
    let t2 = ser_bytes(s.node_name) + t3;
    let t1 = ser_bytes(s.node_id) + t2;
    let p1 = spec_u128_to_le_bytes(s.license) + ser_bytes(s.node_id);
    let p2 = p1 + ser_bytes(s.node_name);
    let p3 = p2 + ser_blobs(s.general);
    let p4 = p3 + ser_records(s.circuit_throughput);
    let p5 = p4 + ser_records(s.circuit_retransmits);
    let p6 = p5 + ser_records(s.circuit_rtt);
    let p7 = p6 + ser_records(s.circuit_cake_drops);
    let p8 = p7 + ser_records(s.circuit_cake_marks);
    let p9 = p8 + ser_records(s.site_throughput);
    let p10 = p9 + ser_records(s.site_retransmits);
    let p11 = p10 + ser_records(s.site_rtt);
    let p12 = p11 + ser_records(s.site_cake_drops);
    assert(ser_session(s) + rest =~= p12 + t13);
    assert(p12 + t13 =~= p11 + t12);
    assert(p11 + t12 =~= p10 + t11);
    assert(p10 + t11 =~= p9 + t10);
    assert(p9 + t10 =~= p8 + t9);
    assert(p8 + t9 =~= p7 + t8);
    assert(p7 + t8 =~= p6 + t7);
    assert(p6 + t7 =~= p5 + t6);
    assert(p5 + t6 =~= p4 + t5);
    assert(p4 + t5 =~= p3 + t4);
    assert(p3 + t4 =~= p2 + t3);
    assert(p2 + t3 =~= p1 + t2);
    assert(p1 + t2 =~= spec_u128_to_le_bytes(s.license) + t1);
    lemma_p_u128(s.license, t1);
    lemma_p_bytes(s.node_id, t2);
    lemma_p_bytes(s.node_name, t3);
    lemma_p_blobs(s.general, t4);
    lemma_p_records(s.circuit_throughput, t5);
    lemma_p_records(s.circuit_retransmits, t6);
    lemma_p_records(s.circuit_rtt, t7);
    lemma_p_records(s.circuit_cake_drops, t8);
    lemma_p_records(s.circuit_cake_marks, t9);
    lemma_p_records(s.site_throughput, t10);
    lemma_p_records(s.site_retransmits, t11);
    lemma_p_records(s.site_rtt, t12);
    lemma_p_records(s.site_cake_drops, t13);
    lemma_p_records(s.site_cake_marks, rest);
}

/// Round-trip law: a well-formed message's wire form parses back to exactly
/// the same message.
pub proof fn lemma_wire_round_trip(m: SpecMessage)
    requires
        msg_wf(m),
    ensures
        p_msg(wire_bytes(m)) == Some(m),
{
    let empty = Seq::<u8>::empty();
    match m {
        SpecMessage::Hello { magic } => {
            lemma_p_u8(0u8, spec_u32_to_le_bytes(magic));
            lemma_p_u32(magic, empty);
            assert(spec_u32_to_le_bytes(magic) + empty =~= spec_u32_to_le_bytes(magic));
        },
        SpecMessage::License { license } => {
            lemma_p_u8(1u8, spec_u128_to_le_bytes(license));
            lemma_p_u128(license, empty);
            assert(spec_u128_to_le_bytes(license) + empty =~= spec_u128_to_le_bytes(license));
        },
        SpecMessage::DataDump { data } => {
            lemma_p_u8(2u8, ser_session(data));
            lemma_p_session(data, empty);
            assert(ser_session(data) + empty =~= ser_session(data));
        },
        SpecMessage::RequestRemoteCommands { node_id } => {
            lemma_p_u8(3u8, ser_bytes(node_id));
            lemma_p_bytes(node_id, empty);
            assert(ser_bytes(node_id) + empty =~= ser_bytes(node_id));
        },
        SpecMessage::CanSubmit => {
            assert(wire_bytes(m) =~= seq![4u8] + empty);
            lemma_p_u8(4u8, empty);
        },
        SpecMessage::RemoteCommands { commands } => {
            lemma_p_u8(5u8, ser_blobs(commands));
            lemma_p_blobs(commands, empty);
            assert(ser_blobs(commands) + empty =~= ser_blobs(commands));
        },
    }
}

} // verus!
