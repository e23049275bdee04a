//! The unknown-IP report: selects, from the throughput tracker's rows, the
//! hosts that no shaping rule covers, and ages their last-seen timestamps
//! against the current time.

use vstd::prelude::*;

verus! {

/// A download/upload pair of counters.
#[derive(Clone, Copy, PartialEq, Eq, Structural, Debug)]
pub struct DownUp {
    pub down: u64,
    pub up: u64,
}

/// One row of the throughput tracker, reduced to the facts this report
/// reads: the host's address, whether the address is a loopback one,
/// whether a shaping class is assigned, whether a shaping rule matches,
/// and the counters.
#[derive(Clone, PartialEq, Eq, Debug)]
pub struct HostRow {
    pub ip: String,
    pub is_loopback: bool,
    pub tc_handle: u32,
    pub is_shaped: bool,
    pub last_seen: u64,
    pub total_bytes: DownUp,
    pub current_bytes: DownUp,
}

pub ghost struct SpecHostRow {
    pub ip: Seq<char>,
    pub is_loopback: bool,
    pub tc_handle: u32,
    pub is_shaped: bool,
    pub last_seen: u64,
    pub total_bytes: DownUp,
    pub current_bytes: DownUp,
}

impl View for HostRow {
    type V = SpecHostRow;

    open spec fn view(&self) -> SpecHostRow {
        SpecHostRow {
            ip: self.ip@,
            is_loopback: self.is_loopback,
            tc_handle: self.tc_handle,
            is_shaped: self.is_shaped,
            last_seen: self.last_seen,
            total_bytes: self.total_bytes,
            current_bytes: self.current_bytes,
        }
    }
}

/// A host the tracker has seen that no shaping rule covers.
#[derive(Clone, PartialEq, Eq, Debug)]
pub struct UnknownIp {
    pub ip: String,
    pub last_seen_nanos: u64,
    pub total_bytes: DownUp,
    pub current_bytes: DownUp,
}

pub ghost struct SpecUnknownIp {
    pub ip: Seq<char>,
    pub last_seen_nanos: u64,
    pub total_bytes: DownUp,
    pub current_bytes: DownUp,
}

impl View for UnknownIp {
    type V = SpecUnknownIp;

    open spec fn view(&self) -> SpecUnknownIp {
        SpecUnknownIp {
            ip: self.ip@,
            last_seen_nanos: self.last_seen_nanos,
            total_bytes: self.total_bytes,
            current_bytes: self.current_bytes,
        }
    }
}

/// A row is reported iff the address is not loopback, no shaping class is
/// assigned, and no shaping rule matches it.
pub open spec fn keep_row(h: SpecHostRow) -> bool {
    !h.is_loopback && h.tc_handle == 0 && !h.is_shaped
}

pub open spec fn to_unknown(now: u64, h: SpecHostRow) -> SpecUnknownIp {
    SpecUnknownIp {
        ip: h.ip,
        last_seen_nanos: (now - h.last_seen) as u64,
        total_bytes: h.total_bytes,
        current_bytes: h.current_bytes,
    }
}

/// The report's rows: the kept rows, in order, aged against `now`.
pub open spec fn unknowns_of(now: u64, rows: Seq<SpecHostRow>) -> Seq<SpecUnknownIp>
    decreases rows.len(),
{
    if rows.len() == 0 {
        Seq::empty()
    } else {
        let prefix = unknowns_of(now, rows.drop_last());
        if keep_row(rows.last()) {
            prefix.push(to_unknown(now, rows.last()))
        } else {
            prefix
        }
    }
}

/// Selects the hosts that no shaping rule covers and reports each with its
/// counters and the nanoseconds since it was last seen. `now` must not
/// precede any row's last-seen time.
pub fn get_unknown_ips(now: u64, rows: &Vec<HostRow>) -> (r: Vec<UnknownIp>)
    requires
        forall|k: int| 0 <= k < rows@.len() ==> (#[trigger] rows@[k]).last_seen <= now,
    ensures
        r@.map_values(|u: UnknownIp| u@) == unknowns_of(
            now,
            rows@.map_values(|h: HostRow| h@),
        ),
{
    let mut r: Vec<UnknownIp> = Vec::new();
    let mut i: usize = 0;
    while i < rows.len()
        invariant
            i <= rows@.len(),
            forall|k: int| 0 <= k < rows@.len() ==> (#[trigger] rows@[k]).last_seen <= now,
            r@.map_values(|u: UnknownIp| u@) == unknowns_of(
                now,
                rows@.take(i as int).map_values(|h: HostRow| h@),
            ),
        decreases rows@.len() - i,
    {
        let ghost pre = r@;
        let h = &rows[i];
        if !h.is_loopback && h.tc_handle == 0 && !h.is_shaped {
            let row = UnknownIp {
                ip: h.ip.clone(),
                last_seen_nanos: now - h.last_seen,
                total_bytes: h.total_bytes,
                current_bytes: h.current_bytes,
            };
            r.push(row);
            proof {
                assert(r@.map_values(|u: UnknownIp| u@) =~= pre.map_values(|u: UnknownIp| u@).push(
                    to_unknown(now, rows@[i as int]@),
                ));
            }
        }
        proof {
            let sv = rows@.take(i as int).map_values(|h2: HostRow| h2@);
            let sv2 = rows@.take(i as int + 1).map_values(|h2: HostRow| h2@);
            assert(sv2.drop_last() =~= sv);
            assert(sv2.last() == rows@[i as int]@);
        }
        i += 1;
    }
    proof {
        assert(rows@.take(rows@.len() as int) =~= rows@);
    }
    r
}

} // verus!
