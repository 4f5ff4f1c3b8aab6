//! What the output formatter is handed: ordered rows of ready-made cells,
//! and the timestamp-sorted snapshot list.

use vstd::prelude::*;

use crate::config::Disk;
use crate::config::Guest;
use crate::config::NetworkInterface;
use crate::render::bool_to_string;
use crate::render::dec_digits;
use crate::render::u64_to_string;
use crate::snapshots::Snapshot;
use crate::snapshots::Timestamp;
use vstd::seq_lib::group_to_multiset_ensures;
use vstd::seq_lib::to_multiset_insert;

verus! {

/// Whether one timestamp is no later than another.
pub open spec fn ts_le(a: Timestamp, b: Timestamp) -> bool {
    a.total_nanos() <= b.total_nanos()
}

/// Whether a snapshot list is ordered by timestamp, earliest first.
pub open spec fn sorted_by_timestamp(s: Seq<Snapshot>) -> bool {
    forall|i: int, j: int| 0 <= i < j < s.len() ==> ts_le(s[i].timestamp, s[j].timestamp)
}

fn timestamp_strictly_before(a: Timestamp, b: Timestamp) -> (r: bool)
    ensures
        r == (a.total_nanos() < b.total_nanos()),
{
    proof {
        assert(a.secs as int * crate::snapshots::NANOS_PER_SEC as int <= u64::MAX as int
            * crate::snapshots::NANOS_PER_SEC as int) by (nonlinear_arith)
            requires
                a.secs <= u64::MAX,
        ;
        assert(b.secs as int * crate::snapshots::NANOS_PER_SEC as int <= u64::MAX as int
            * crate::snapshots::NANOS_PER_SEC as int) by (nonlinear_arith)
            requires
                b.secs <= u64::MAX,
        ;
    }
    let a_nanos: u128 = a.secs as u128 * 1_000_000_000 + a.nanos as u128;
    let b_nanos: u128 = b.secs as u128 * 1_000_000_000 + b.nanos as u128;
    a_nanos < b_nanos
}

/// Sorts a snapshot list by timestamp, earliest first, for display: the
/// result holds exactly the given snapshots.
pub fn sort_snapshots_by_timestamp(snapshots: Vec<Snapshot>) -> (r: Vec<Snapshot>)
    ensures
        r@.to_multiset() == snapshots@.to_multiset(),
        sorted_by_timestamp(r@),
{
    broadcast use group_to_multiset_ensures, to_multiset_insert;

    let mut rest = snapshots;
    let mut out: Vec<Snapshot> = Vec::new();
    proof {
        assert(out@.to_multiset().add(rest@.to_multiset()) =~= rest@.to_multiset());
    }
    while rest.len() > 0
        invariant
            out@.to_multiset().add(rest@.to_multiset()) == snapshots@.to_multiset(),
            sorted_by_timestamp(out@),
            forall|a: int, b: int|
                0 <= a < out@.len() && 0 <= b < rest@.len() ==> ts_le(
                    out@[a].timestamp,
                    rest@[b].timestamp,
                ),
        decreases rest@.len(),
    {
        let mut m: usize = 0;
        let mut k: usize = 1;
        while k < rest.len()
            invariant
                rest@.len() > 0,
                m < k <= rest@.len() || (m == 0 && k <= rest@.len()),
                m < rest@.len(),
                forall|t: int| 0 <= t < k ==> ts_le(rest@[m as int].timestamp, rest@[t].timestamp),
            decreases rest@.len() - k,
        {
            if timestamp_strictly_before(rest[k].timestamp, rest[m].timestamp) {
                m = k;
            }
            k = k + 1;
        }
        let ghost rest_pre = rest@;
        let ghost out_pre = out@;
        let x = rest.remove(m);
        proof {
            rest_pre.to_multiset_ensures();
            out_pre.to_multiset_ensures();
            assert(x == rest_pre[m as int]);
            assert(rest@ == rest_pre.remove(m as int));
            assert(rest_pre.contains(x)) by {
                assert(rest_pre[m as int] == x);
            }
            assert(rest@.to_multiset() =~= rest_pre.to_multiset().remove(x));
        }
        out.push(x);
        proof {
            rest_pre.to_multiset_ensures();
            out_pre.to_multiset_ensures();
            assert(out@.to_multiset() =~= out_pre.to_multiset().insert(x));
            assert(rest_pre.to_multiset().count(x) > 0);
            assert(out@.to_multiset().add(rest@.to_multiset()) =~= out_pre.to_multiset().add(
                rest_pre.to_multiset(),
            ));
            // the chosen snapshot is no later than anything left behind
            assert forall|b: int| 0 <= b < rest@.len() implies ts_le(
                x.timestamp,
                rest@[b].timestamp,
            ) by {
                if b < m as int {
                    assert(rest@[b] == rest_pre[b]);
                } else {
                    assert(rest@[b] == rest_pre[b + 1]);
                }
            }
            // and no earlier than anything already emitted
            assert forall|a: int, b: int|
                0 <= a < out@.len() && 0 <= b < rest@.len() implies ts_le(
                out@[a].timestamp,
                rest@[b].timestamp,
            ) by {
                if a < out_pre.len() {
                    assert(out@[a] == out_pre[a]);
                    if b < m as int {
                        assert(rest@[b] == rest_pre[b]);
                        assert(ts_le(out_pre[a].timestamp, rest_pre[b].timestamp));
                    } else {
                        assert(rest@[b] == rest_pre[b + 1]);
                        assert(ts_le(out_pre[a].timestamp, rest_pre[b + 1].timestamp));
                    }
                } else {
                    assert(out@[a] == x);
                    assert(ts_le(x.timestamp, rest@[b].timestamp));
                }
            }
            assert forall|a: int, b: int| 0 <= a < b < out@.len() implies ts_le(
                out@[a].timestamp,
                out@[b].timestamp,
            ) by {
                if b < out_pre.len() {
                    assert(out@[a] == out_pre[a]);
                    assert(out@[b] == out_pre[b]);
                    assert(sorted_by_timestamp(out_pre));
                    assert(ts_le(out_pre[a].timestamp, out_pre[b].timestamp));
                } else {
                    assert(out@[b] == x);
                    assert(out@[a] == out_pre[a]);
                    assert(rest_pre[m as int] == x);
                    assert(ts_le(out_pre[a].timestamp, rest_pre[m as int].timestamp));
                }
            }
            assert(sorted_by_timestamp(out@));
        }
    }
    proof {
        assert(rest@.to_multiset().len() == 0);
        assert(out@.to_multiset().add(rest@.to_multiset()) =~= out@.to_multiset());
    }
    out
}

/// The cells of one row, in column order.
pub open spec fn cells(row: Seq<String>) -> Seq<Seq<char>> {
    row.map_values(|c: String| c@)
}

/// The last epoch second the calendar can render: the final second of the
/// year 9999, the upper end of the external time library's date range.
pub const MAX_CALENDAR_SECS: u64 = 253_402_300_799;

/// The year-to-second calendar rendering of an epoch second count, as the
/// external time library produces it.
pub uninterp spec fn formatted_timestamp_of(secs: u64) -> Seq<char>;

/// Relies on time::OffsetDateTime::from_unix_timestamp, on
/// time::format_description::parse of the fixed year-to-second description,
/// and on time::OffsetDateTime::format: the rendering depends on the epoch
/// second count alone. Up to the calendar's last representable second every
/// step succeeds — the timestamp is in the documented range and the four
/// rendered date components stay within their widths — so a rendering is
/// owed there; past it nothing is returned.
#[verifier::external_body]
fn format_timestamp(secs: u64) -> (r: Option<String>)
    ensures
        r matches Some(s) ==> s@ == formatted_timestamp_of(secs),
        secs <= MAX_CALENDAR_SECS ==> r is Some,
{
    let instant = time::OffsetDateTime::from_unix_timestamp(secs as i64).ok()?;
    let format = time::format_description::parse(
        "[year]-[month]-[day] [hour]:[minute]:[second]",
    )
    .ok()?;
    instant.format(&format).ok()
}

/// The row of one snapshot in the snapshot list: its id and its rendered
/// timestamp. A row is owed for every instant the calendar can hold;
/// nothing comes back only past its last representable second.
pub fn snapshot_row(snapshot: &Snapshot) -> (r: Option<Vec<String>>)
    ensures
        r matches Some(row) ==> cells(row@) == seq![
            snapshot.id@,
            formatted_timestamp_of(snapshot.timestamp.secs),
        ],
        snapshot.timestamp.secs <= MAX_CALENDAR_SECS ==> r is Some,
{
    match format_timestamp(snapshot.timestamp.secs) {
        Some(rendered) => {
            let mut row: Vec<String> = Vec::new();
            row.push(snapshot.id.clone());
            row.push(rendered);
            proof {
                assert(cells(row@) =~= seq![
                    snapshot.id@,
                    formatted_timestamp_of(snapshot.timestamp.secs),
                ]);
            }
            Some(row)
        },
        None => None,
    }
}

impl Guest {
    /// The row of this guest in the guest list: id, liveness, spice port
    /// and description.
    pub fn list_row(&self, guest_id: &String, booted: bool) -> (r: Vec<String>)
        ensures
            cells(r@) == seq![
                guest_id@,
                (if booted {
                    "true"@
                } else {
                    "false"@
                }),
                dec_digits(self.spice_port as int),
                self.description@,
            ],
    {
        let mut row: Vec<String> = Vec::new();
        row.push(guest_id.clone());
        row.push(bool_to_string(booted));
        row.push(u64_to_string(self.spice_port));
        row.push(self.description.clone());
        proof {
            assert(cells(row@) =~= seq![
                guest_id@,
                (if booted {
                    "true"@
                } else {
                    "false"@
                }),
                dec_digits(self.spice_port as int),
                self.description@,
            ]);
        }
        row
    }

    /// The head row of this guest's detail view: id, liveness, spice port,
    /// memory, cores and description.
    pub fn details_row(&self, guest_id: &String, booted: bool) -> (r: Vec<String>)
        ensures
            cells(r@) == seq![
                guest_id@,
                (if booted {
                    "true"@
                } else {
                    "false"@
                }),
                dec_digits(self.spice_port as int),
                dec_digits(self.memory as int),
                dec_digits(self.cores as int),
                self.description@,
            ],
    {
        let mut row: Vec<String> = Vec::new();
        row.push(guest_id.clone());
        row.push(bool_to_string(booted));
        row.push(u64_to_string(self.spice_port));
        row.push(u64_to_string(self.memory));
        row.push(u64_to_string(self.cores));
        row.push(self.description.clone());
        proof {
            assert(cells(row@) =~= seq![
                guest_id@,
                (if booted {
                    "true"@
                } else {
                    "false"@
                }),
                dec_digits(self.spice_port as int),
                dec_digits(self.memory as int),
                dec_digits(self.cores as int),
                self.description@,
            ]);
        }
        row
    }
}

impl Disk {
    /// The row of this disk in the detail view: label, size and path.
    pub fn details_row(&self) -> (r: Vec<String>)
        ensures
            cells(r@) == seq![self.label@, dec_digits(self.size as int), self.path@],
    {
        let mut row: Vec<String> = Vec::new();
        row.push(self.label.clone());
        row.push(u64_to_string(self.size));
        row.push(self.path.clone());
        proof {
            assert(cells(row@) =~= seq![self.label@, dec_digits(self.size as int), self.path@]);
        }
        row
    }
}

impl NetworkInterface {
    /// The row of this interface in the detail view: network, model, MAC
    /// address and tap name.
    pub fn details_row(&self) -> (r: Vec<String>)
        ensures
            cells(r@) == seq![self.network_id@, self.model@, self.mac_address@, self.tap_name@],
    {
        let mut row: Vec<String> = Vec::new();
        row.push(self.network_id.clone());
        row.push(self.model.clone());
        row.push(self.mac_address.clone());
        row.push(self.tap_name.clone());
        proof {
            assert(cells(row@) =~= seq![
                self.network_id@,
                self.model@,
                self.mac_address@,
                self.tap_name@,
            ]);
        }
        row
    }
}

} // verus!
