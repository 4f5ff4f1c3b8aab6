//! Snapshots as the image tool reports them, and the reduction of per-disk
//! snapshot lists into one guest-level view.

use vstd::prelude::*;

verus! {

/// Nanoseconds in one second.
pub const NANOS_PER_SEC: u64 = 1_000_000_000;

/// Two disks report the same logical snapshot only if their timestamps differ
/// by less than this many seconds.
pub const SNAPSHOT_TOLERANCE_SECS: u64 = 300;

/// A wall-clock instant, seconds and nanoseconds since the epoch, as reported
/// by the image tool for a snapshot.
#[derive(Clone, Copy, PartialEq, Eq, Structural, Debug)]
pub struct Timestamp {
    pub secs: u64,
    pub nanos: u32,
}

impl Timestamp {
    /// The instant as a single nanosecond count.
    pub open spec fn total_nanos(self) -> int {
        self.secs * NANOS_PER_SEC + self.nanos
    }
}

/// One snapshot of one disk: its name and the moment it was taken.
#[derive(Clone, Debug)]
pub struct Snapshot {
    pub id: String,
    pub timestamp: Timestamp,
}

/// The mathematical value of a snapshot: its name as a character sequence and
/// its timestamp.
pub struct SnapshotModel {
    pub id: Seq<char>,
    pub timestamp: Timestamp,
}

impl View for Snapshot {
    type V = SnapshotModel;

    open spec fn view(&self) -> SnapshotModel {
        SnapshotModel { id: self.id@, timestamp: self.timestamp }
    }
}

pub open spec fn abs_diff(a: int, b: int) -> int {
    if a >= b {
        a - b
    } else {
        b - a
    }
}

/// Whether two timestamps are close enough to stand for one logical snapshot:
/// their difference, truncated to whole seconds, is below the tolerance.
pub open spec fn within_tolerance(a: Timestamp, b: Timestamp) -> bool {
    abs_diff(a.total_nanos(), b.total_nanos()) < SNAPSHOT_TOLERANCE_SECS * NANOS_PER_SEC
}

/// Decides `within_tolerance` on two reported timestamps.
pub fn timestamps_within_tolerance(a: Timestamp, b: Timestamp) -> (r: bool)
    ensures
        r == within_tolerance(a, b),
{
    proof {
        assert(a.secs as int * NANOS_PER_SEC as int <= u64::MAX as int * NANOS_PER_SEC as int)
            by (nonlinear_arith)
            requires
                a.secs <= u64::MAX,
        ;
        assert(b.secs as int * NANOS_PER_SEC as int <= u64::MAX as int * NANOS_PER_SEC as int)
            by (nonlinear_arith)
            requires
                b.secs <= u64::MAX,
        ;
    }
    let a_nanos: u128 = a.secs as u128 * NANOS_PER_SEC as u128 + a.nanos as u128;
    let b_nanos: u128 = b.secs as u128 * NANOS_PER_SEC as u128 + b.nanos as u128;
    let difference: u128 = if a_nanos >= b_nanos {
        a_nanos - b_nanos
    } else {
        b_nanos - a_nanos
    };
    difference < SNAPSHOT_TOLERANCE_SECS as u128 * NANOS_PER_SEC as u128
}

/// The models of one disk's reported snapshots, in report order.
pub open spec fn disk_models(disk: Seq<Snapshot>) -> Seq<SnapshotModel> {
    disk.map_values(|s: Snapshot| s@)
}

/// The models of every disk's reported snapshots, disks in declared order.
pub open spec fn disks_models(per_disk: Seq<Vec<Snapshot>>) -> Seq<Seq<SnapshotModel>> {
    per_disk.map_values(|d: Vec<Snapshot>| disk_models(d@))
}

/// The timestamp a disk's report associates with a name: that of the last
/// entry carrying the name, as collecting entries into a map would keep it.
pub open spec fn lookup_spec(disk: Seq<SnapshotModel>, id: Seq<char>) -> Option<Timestamp>
    decreases disk.len(),
{
    if disk.len() == 0 {
        None
    } else if disk.last().id == id {
        Some(disk.last().timestamp)
    } else {
        lookup_spec(disk.drop_last(), id)
    }
}

/// Whether a disk's report carries the given snapshot with a timestamp close
/// enough to it.
pub open spec fn matches_tolerance(disk: Seq<SnapshotModel>, entry: SnapshotModel) -> bool {
    match lookup_spec(disk, entry.id) {
        Some(t) => within_tolerance(entry.timestamp, t),
        None => false,
    }
}

/// Whether entry `j` of the first disk's report survives the reduction: it is
/// the last entry of that report with its name, and every further disk
/// reports the name with a timestamp within tolerance.
pub open spec fn kept_at(per_disk: Seq<Seq<SnapshotModel>>, j: int) -> bool {
    let first = per_disk[0];
    &&& per_disk.len() > 0
    &&& 0 <= j < first.len()
    &&& forall|k: int| j < k < first.len() ==> first[k].id != first[j].id
    &&& forall|i: int| 1 <= i < per_disk.len() ==> matches_tolerance(per_disk[i], first[j])
}

/// The reduction of the first `n` entries of the first disk's report.
pub open spec fn guest_level_prefix(per_disk: Seq<Seq<SnapshotModel>>, n: int) -> Seq<
    SnapshotModel,
>
    decreases n,
{
    if n <= 0 {
        Seq::empty()
    } else if kept_at(per_disk, n - 1) {
        guest_level_prefix(per_disk, n - 1).push(per_disk[0][n - 1])
    } else {
        guest_level_prefix(per_disk, n - 1)
    }
}

/// The guest-level snapshot set: the first disk's report, reduced to the
/// entries that every disk confirms. With no disks it is empty.
pub open spec fn guest_level(per_disk: Seq<Seq<SnapshotModel>>) -> Seq<SnapshotModel> {
    if per_disk.len() == 0 {
        Seq::empty()
    } else {
        guest_level_prefix(per_disk, per_disk[0].len() as int)
    }
}

/// Whether some entry of `s` carries the name `id`.
pub open spec fn has_id(s: Seq<SnapshotModel>, id: Seq<char>) -> bool {
    exists|j: int| 0 <= j < s.len() && s[j].id == id
}

/// The set-theoretic reading of the reduction: a name belongs to the
/// guest-level set iff every disk reports it and every disk's timestamp for it
/// lies within tolerance of the first disk's.
pub open spec fn reduced_contains(per_disk: Seq<Seq<SnapshotModel>>, id: Seq<char>) -> bool {
    &&& per_disk.len() > 0
    &&& lookup_spec(per_disk[0], id) is Some
    &&& forall|i: int|
        1 <= i < per_disk.len() ==> match lookup_spec(#[trigger] per_disk[i], id) {
            Some(t) => within_tolerance(lookup_spec(per_disk[0], id).unwrap(), t),
            None => false,
        }
}

proof fn lemma_lookup_last(s: Seq<SnapshotModel>, id: Seq<char>)
    ensures
        match lookup_spec(s, id) {
            Some(t) => exists|j: int|
                0 <= j < s.len() && s[j].id == id && s[j].timestamp == t && (forall|k: int|
                    j < k < s.len() ==> s[k].id != id),
            None => forall|j: int| 0 <= j < s.len() ==> s[j].id != id,
        },
    decreases s.len(),
{
    if s.len() == 0 {
    } else if s.last().id == id {
        let j = s.len() - 1;
        assert(0 <= j < s.len() && s[j].id == id && s[j].timestamp == s.last().timestamp && (
        forall|k: int| j < k < s.len() ==> s[k].id != id));
    } else {
        lemma_lookup_last(s.drop_last(), id);
        let dl = s.drop_last();
        match lookup_spec(s.drop_last(), id) {
            Some(t) => {
                let j = choose|j: int|
                    0 <= j < dl.len() && dl[j].id == id && dl[j].timestamp == t && (forall|k: int|
                        j < k < dl.len() ==> dl[k].id != id);
                assert(s[j].id == id && s[j].timestamp == t);
                assert(forall|k: int| j < k < s.len() ==> s[k].id != id) by {
                    assert(forall|k: int|
                        j < k < s.len() - 1 ==> s[k] == s.drop_last()[k] && s[k].id != id);
                    assert(s[s.len() - 1].id != id);
                }
            },
            None => {
                assert forall|j: int| 0 <= j < s.len() implies s[j].id != id by {
                    if j < s.len() - 1 {
                        assert(dl[j] == s[j]);
                        assert(dl[j].id != id);
                    } else {
                        assert(s[s.len() - 1] == s.last());
                    }
                }
            },
        }
    }
}

proof fn lemma_last_lookup(s: Seq<SnapshotModel>, j: int)
    requires
        0 <= j < s.len(),
        forall|k: int| j < k < s.len() ==> s[k].id != s[j].id,
    ensures
        lookup_spec(s, s[j].id) == Some(s[j].timestamp),
    decreases s.len(),
{
    if j == s.len() - 1 {
    } else {
        assert(s.last().id != s[j].id);
        assert(s.drop_last()[j] == s[j]);
        assert(forall|k: int|
            j < k < s.drop_last().len() ==> s.drop_last()[k] == s[k] && s.drop_last()[k].id != s
                .drop_last()[j].id);
        lemma_last_lookup(s.drop_last(), j);
    }
}

proof fn lemma_prefix_membership(d: Seq<Seq<SnapshotModel>>, n: int, id: Seq<char>)
    requires
        d.len() > 0,
        0 <= n <= d[0].len(),
    ensures
        has_id(guest_level_prefix(d, n), id) <==> exists|j: int|
            0 <= j < n && #[trigger] kept_at(d, j) && d[0][j].id == id,
        forall|p: int|
            0 <= p < guest_level_prefix(d, n).len() ==> exists|j: int|
                0 <= j < n && #[trigger] kept_at(d, j) && #[trigger] guest_level_prefix(d, n)[p]
                    == d[0][j],
        forall|p: int, q: int|
            0 <= p < q < guest_level_prefix(d, n).len() ==> (#[trigger] guest_level_prefix(
                d,
                n,
            )[p]).id != (#[trigger] guest_level_prefix(d, n)[q]).id,
    decreases n,
{
    if n <= 0 {
    } else {
        lemma_prefix_membership(d, n - 1, id);
        let prev = guest_level_prefix(d, n - 1);
        let cur = guest_level_prefix(d, n);
        if kept_at(d, n - 1) {
            assert(cur == prev.push(d[0][n - 1]));
            assert(forall|p: int| 0 <= p < prev.len() ==> cur[p] == prev[p]);
            assert(cur[cur.len() - 1] == d[0][n - 1]);
            // membership: both directions follow from the push shape
            if d[0][n - 1].id == id {
                assert(has_id(cur, id)) by {
                    assert(cur[cur.len() - 1].id == id);
                }
            }
            // uniqueness: the appended entry is the last occurrence of its id
            // among the first n entries, so no kept earlier entry shares it
            assert(forall|p: int| 0 <= p < prev.len() ==> cur[p].id != d[0][n - 1].id) by {
                assert forall|p: int| 0 <= p < prev.len() implies cur[p].id != d[0][n - 1].id by {
                    let j = choose|j: int|
                        0 <= j < n - 1 && #[trigger] kept_at(d, j) && prev[p] == d[0][j];
                    assert(kept_at(d, j) && prev[p] == d[0][j]);
                    assert(d[0][n - 1].id != d[0][j].id);
                }
            }
        } else {
            assert(cur == prev);
            if has_id(cur, id) {
                // no new entry was added, so the witness lies below n - 1
            }
        }
    }
}

/// A disk's report associates a timestamp with a name exactly when some
/// entry carries the name.
pub proof fn lemma_lookup_some_iff_has_id(s: Seq<SnapshotModel>, id: Seq<char>)
    ensures
        (lookup_spec(s, id) is Some) <==> has_id(s, id),
{
    lemma_lookup_last(s, id);
    match lookup_spec(s, id) {
        Some(t) => {
            let j = choose|j: int|
                0 <= j < s.len() && s[j].id == id && s[j].timestamp == t && (forall|k: int|
                    j < k < s.len() ==> s[k].id != id);
            assert(0 <= j < s.len() && s[j].id == id);
        },
        None => {
        },
    }
}

/// Snapshot reduction correctness: a name stands in the reduced guest-level
/// set exactly when every disk reports it with a timestamp within tolerance
/// of the first disk's value for it, and the surviving entry carries the
/// first disk's timestamp. Each name appears at most once in the result.
pub proof fn lemma_reduction_correct(per_disk: Seq<Seq<SnapshotModel>>, id: Seq<char>)
    ensures
        has_id(guest_level(per_disk), id) <==> reduced_contains(per_disk, id),
        reduced_contains(per_disk, id) ==> exists|p: int|
            0 <= p < guest_level(per_disk).len() && (#[trigger] guest_level(per_disk)[p]).id == id
                && Some(guest_level(per_disk)[p].timestamp) == lookup_spec(per_disk[0], id),
        forall|p: int, q: int|
            0 <= p < q < guest_level(per_disk).len() ==> (#[trigger] guest_level(per_disk)[p]).id
                != (#[trigger] guest_level(per_disk)[q]).id,
{
    let d = per_disk;
    if d.len() == 0 {
    } else {
        let n = d[0].len() as int;
        lemma_prefix_membership(d, n, id);
        let g = guest_level(d);
        lemma_lookup_last(d[0], id);
        if has_id(g, id) {
            let j = choose|j: int| 0 <= j < n && #[trigger] kept_at(d, j) && d[0][j].id == id;
            lemma_last_lookup(d[0], j);
            assert(lookup_spec(d[0], id) == Some(d[0][j].timestamp));
            assert(reduced_contains(d, id)) by {
                assert(forall|i: int|
                    1 <= i < d.len() ==> matches_tolerance(#[trigger] d[i], d[0][j]));
            }
        }
        if reduced_contains(d, id) {
            let t0 = lookup_spec(d[0], id).unwrap();
            let j = choose|j: int|
                0 <= j < d[0].len() && d[0][j].id == id && d[0][j].timestamp == t0 && (forall|
                    k: int,
                |
                    j < k < d[0].len() ==> d[0][k].id != id);
            assert(kept_at(d, j)) by {
                assert(forall|k: int| j < k < d[0].len() ==> d[0][k].id != d[0][j].id);
                assert(forall|i: int|
                    1 <= i < d.len() ==> matches_tolerance(#[trigger] d[i], d[0][j]));
            }
            assert(has_id(g, id));
            let p = choose|p: int| 0 <= p < g.len() && g[p].id == id;
            let j2 = choose|j2: int| 0 <= j2 < n && #[trigger] kept_at(d, j2) && g[p] == d[0][j2];
            assert(g[p] == d[0][j2] && d[0][j2].id == id);
            // two last occurrences of the same name coincide
            assert(j2 == j) by {
                if j2 < j {
                    assert(d[0][j].id != d[0][j2].id);
                } else if j < j2 {
                    assert(d[0][j2].id != id);
                }
            }
            assert(Some(g[p].timestamp) == lookup_spec(d[0], id));
        }
    }
}

/// Reduction frame property: if two families of disk reports agree, disk by
/// disk, on every name but one, then the reduced sets agree on membership of
/// every name but that one.
pub proof fn lemma_reduction_frame(
    d1: Seq<Seq<SnapshotModel>>,
    d2: Seq<Seq<SnapshotModel>>,
    id: Seq<char>,
)
    requires
        d1.len() == d2.len(),
        forall|i: int, other: Seq<char>|
            0 <= i < d1.len() && other != id ==> #[trigger] lookup_spec(d1[i], other)
                == lookup_spec(d2[i], other),
    ensures
        forall|other: Seq<char>|
            other != id ==> (#[trigger] reduced_contains(d1, other) <==> reduced_contains(
                d2,
                other,
            )),
{
    assert forall|other: Seq<char>| other != id implies (#[trigger] reduced_contains(d1, other)
        <==> reduced_contains(d2, other)) by {
        if d1.len() > 0 {
            assert(lookup_spec(d1[0], other) == lookup_spec(d2[0], other));
            assert(forall|i: int|
                0 <= i < d1.len() ==> #[trigger] lookup_spec(d1[i], other) == lookup_spec(
                    d2[i],
                    other,
                ));
            if reduced_contains(d1, other) {
                assert forall|i: int| 1 <= i < d2.len() implies match lookup_spec(
                    #[trigger] d2[i],
                    other,
                ) {
                    Some(t) => within_tolerance(lookup_spec(d2[0], other).unwrap(), t),
                    None => false,
                } by {
                    assert(lookup_spec(d1[i], other) == lookup_spec(d2[i], other));
                }
            }
            if reduced_contains(d2, other) {
                assert forall|i: int| 1 <= i < d1.len() implies match lookup_spec(
                    #[trigger] d1[i],
                    other,
                ) {
                    Some(t) => within_tolerance(lookup_spec(d1[0], other).unwrap(), t),
                    None => false,
                } by {
                    assert(lookup_spec(d1[i], other) == lookup_spec(d2[i], other));
                }
            }
        }
    }
}

/// Reduction frame property, read on the reduced sets themselves: disturbing
/// the disks' reports at one name moves no other name into or out of the
/// guest-level set.
pub proof fn lemma_reduction_frame_sets(
    d1: Seq<Seq<SnapshotModel>>,
    d2: Seq<Seq<SnapshotModel>>,
    id: Seq<char>,
)
    requires
        d1.len() == d2.len(),
        forall|i: int, other: Seq<char>|
            0 <= i < d1.len() && other != id ==> #[trigger] lookup_spec(d1[i], other)
                == lookup_spec(d2[i], other),
    ensures
        forall|other: Seq<char>|
            other != id ==> (#[trigger] has_id(guest_level(d1), other) <==> has_id(
                guest_level(d2),
                other,
            )),
{
    lemma_reduction_frame(d1, d2, id);
    assert forall|other: Seq<char>| other != id implies (#[trigger] has_id(guest_level(d1), other)
        <==> has_id(guest_level(d2), other)) by {
        lemma_reduction_correct(d1, other);
        lemma_reduction_correct(d2, other);
        assert(reduced_contains(d1, other) <==> reduced_contains(d2, other));
    }
}

/// Finds the timestamp a disk's report associates with `id`, taking the last
/// entry with the name as a map collected from the report would.
pub fn lookup_timestamp(disk: &Vec<Snapshot>, id: &String) -> (r: Option<Timestamp>)
    ensures
        r == lookup_spec(disk_models(disk@), id@),
{
    let ghost models = disk_models(disk@);
    let mut k: usize = disk.len();
    proof {
        assert(models.take(disk@.len() as int) =~= models);
    }
    while k > 0
        invariant
            k <= disk.len(),
            models == disk_models(disk@),
            lookup_spec(models, id@) == lookup_spec(models.take(k as int), id@),
        decreases k,
    {
        k = k - 1;
        if disk[k].id == *id {
            return Some(disk[k].timestamp);
        }
        proof {
            assert(models.take(k as int + 1).drop_last() =~= models.take(k as int));
            assert(models.take(k as int + 1).last() == models[k as int]);
        }
    }
    None
}

/// Reduces the per-disk snapshot reports of a guest, disks in declared order,
/// into the guest-level snapshot set: the first disk's entries, kept only
/// where every further disk reports the same name with a timestamp within
/// tolerance.
pub fn reduce_snapshots(per_disk: &Vec<Vec<Snapshot>>) -> (r: Vec<Snapshot>)
    ensures
        disk_models(r@) == guest_level(disks_models(per_disk@)),
{
    let ghost d = disks_models(per_disk@);
    let mut r: Vec<Snapshot> = Vec::new();
    if per_disk.len() == 0 {
        proof {
            assert(disk_models(r@) =~= guest_level(d));
        }
        return r;
    }
    let first = &per_disk[0];
    let n = first.len();
    proof {
        assert(d[0] == disk_models(first@));
    }
    let mut j: usize = 0;
    while j < n
        invariant
            per_disk@.len() > 0,
            d == disks_models(per_disk@),
            d[0] == disk_models(first@),
            first == &per_disk@[0],
            n == first@.len(),
            j <= n,
            disk_models(r@) == guest_level_prefix(d, j as int),
        decreases n - j,
    {
        let entry = &first[j];
        proof {
            assert(d[0][j as int] == first@[j as int]@);
        }
        let mut is_last: bool = true;
        let mut k: usize = j + 1;
        while k < n
            invariant
                d[0] == disk_models(first@),
                n == first@.len(),
                j < n,
                j < k <= n,
                entry == &first@[j as int],
                is_last == forall|t: int| j < t < k ==> d[0][t].id != d[0][j as int].id,
            decreases n - k,
        {
            proof {
                assert(d[0][k as int] == first@[k as int]@);
                assert(d[0][j as int] == first@[j as int]@);
            }
            let same: bool = first[k].id == entry.id;
            if same {
                is_last = false;
            }
            proof {
                if same {
                    assert(!(forall|t: int| j < t < k + 1 ==> d[0][t].id != d[0][j as int].id))
                        by {
                        assert(j < k as int && (k as int) < k + 1 && d[0][k as int].id == d[0][
                            j as int
                        ].id);
                    }
                } else if is_last {
                    assert(forall|t: int| j < t < k + 1 ==> d[0][t].id != d[0][j as int].id) by {
                        assert(forall|t: int| j < t < k ==> d[0][t].id != d[0][j as int].id);
                        assert(d[0][k as int].id != d[0][j as int].id);
                    }
                } else {
                    let t0 = choose|t: int| j < t < k && d[0][t].id == d[0][j as int].id;
                    assert(j < t0 < k + 1 && d[0][t0].id == d[0][j as int].id);
                    assert(!(forall|t: int| j < t < k + 1 ==> d[0][t].id != d[0][j as int].id));
                }
            }
            k = k + 1;
        }
        let mut ok: bool = is_last;
        let mut i: usize = 1;
        while i < per_disk.len()
            invariant
                per_disk@.len() > 0,
                d == disks_models(per_disk@),
                d[0] == disk_models(first@),
                n == first@.len(),
                j < n,
                entry == &first@[j as int],
                1 <= i <= per_disk@.len(),
                ok == (is_last && forall|t: int|
                    1 <= t < i ==> matches_tolerance(d[t], d[0][j as int])),
            decreases per_disk.len() - i,
        {
            proof {
                assert(d[i as int] == disk_models(per_disk@[i as int]@));
                assert(d[0][j as int] == first@[j as int]@);
            }
            let found = lookup_timestamp(&per_disk[i], &entry.id);
            let mut this_ok: bool = false;
            match found {
                Some(t) => {
                    this_ok = timestamps_within_tolerance(entry.timestamp, t);
                },
                None => {
                },
            }
            proof {
                assert(this_ok == matches_tolerance(d[i as int], d[0][j as int]));
            }
            if !this_ok {
                ok = false;
            }
            proof {
                if !this_ok {
                    assert(!(forall|t: int|
                        1 <= t < i + 1 ==> matches_tolerance(d[t], d[0][j as int]))) by {
                        assert(1 <= i as int && (i as int) < i + 1 && !matches_tolerance(
                            d[i as int],
                            d[0][j as int],
                        ));
                    }
                } else if ok {
                    assert(forall|t: int|
                        1 <= t < i + 1 ==> matches_tolerance(d[t], d[0][j as int])) by {
                        assert(forall|t: int|
                            1 <= t < i ==> matches_tolerance(d[t], d[0][j as int]));
                        assert(matches_tolerance(d[i as int], d[0][j as int]));
                    }
                } else if is_last {
                    let t0 = choose|t: int|
                        1 <= t < i && !matches_tolerance(d[t], d[0][j as int]);
                    assert(1 <= t0 < i + 1 && !matches_tolerance(d[t0], d[0][j as int]));
                    assert(!(forall|t: int|
                        1 <= t < i + 1 ==> matches_tolerance(d[t], d[0][j as int])));
                }
            }
            i = i + 1;
        }
        proof {
            assert(ok == kept_at(d, j as int));
        }
        if ok {
            let kept = Snapshot { id: entry.id.clone(), timestamp: entry.timestamp };
            r.push(kept);
            proof {
                assert(disk_models(r@) =~= guest_level_prefix(d, j as int + 1));
            }
        } else {
            proof {
                assert(disk_models(r@) =~= guest_level_prefix(d, j as int + 1));
            }
        }
        j = j + 1;
    }
    r
}

} // verus!
