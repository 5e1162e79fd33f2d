//! Comparison of two hash maps (lists of path, hash, size entries).
//!
//! A path listed twice counts once, by its last entry. Each source path is
//! identical (same path, same hash in the target), changed (same path,
//! another hash), moved (path absent from the target, hash present there) or
//! missing (neither present). A target path whose path and hash both are
//! absent from the source is new.

use crate::text::str_eq;
use vstd::prelude::*;

verus! {

/// One entry of a hash map.
#[derive(Debug, Clone, PartialEq, Eq)]
pub struct MapEntry {
    pub path: String,
    pub hash: String,
    pub size: u64,
    pub mtime: Option<i64>,
}

/// An entry as contracts see it.
pub struct EntryView {
    pub path: Seq<char>,
    pub hash: Seq<char>,
    pub size: u64,
    pub mtime: Option<i64>,
}

impl View for MapEntry {
    type V = EntryView;

    open spec fn view(&self) -> EntryView {
        EntryView { path: self.path@, hash: self.hash@, size: self.size, mtime: self.mtime }
    }
}

impl MapEntry {
    /// A copy of the entry.
    pub fn copied(&self) -> (r: MapEntry)
        ensures
            r@ == self@,
    {
        MapEntry {
            path: self.path.clone(),
            hash: self.hash.clone(),
            size: self.size,
            mtime: self.mtime,
        }
    }
}

/// The views of a list of entries.
pub open spec fn entries_view(v: Seq<MapEntry>) -> Seq<EntryView> {
    v.map_values(|e: MapEntry| e@)
}

/// The views of a list of entry pairs.
pub open spec fn pairs_view(v: Seq<(MapEntry, MapEntry)>) -> Seq<(EntryView, EntryView)> {
    v.map_values(|p: (MapEntry, MapEntry)| (p.0@, p.1@))
}

/// Index of the last of the first `n` entries with path `p`.
pub open spec fn last_with_path(v: Seq<EntryView>, p: Seq<char>, n: nat) -> Option<nat>
    decreases n,
{
    if n == 0 {
        None
    } else if v[n - 1].path == p {
        Some((n - 1) as nat)
    } else {
        last_with_path(v, p, (n - 1) as nat)
    }
}

/// Whether some entry has path `p`.
pub open spec fn has_path(v: Seq<EntryView>, p: Seq<char>) -> bool {
    last_with_path(v, p, v.len()) is Some
}

/// Whether some entry has hash `h`.
pub open spec fn has_hash(v: Seq<EntryView>, h: Seq<char>) -> bool {
    exists|j: int| 0 <= j < v.len() && #[trigger] v[j].hash == h
}

/// Whether entry `i` stands for its path: no later entry has the same path.
pub open spec fn stands_for_path(v: Seq<EntryView>, i: int) -> bool {
    last_with_path(v, v[i].path, v.len()) == Some(i as nat)
}

/// The class of a source entry.
pub enum EntryClass {
    Identical,
    Changed,
    Moved,
    Missing,
}

/// Class of source entry `i` against the target.
pub open spec fn classify(s: Seq<EntryView>, t: Seq<EntryView>, i: int) -> EntryClass {
    match last_with_path(t, s[i].path, t.len()) {
        Some(j) => if t[j as int].hash == s[i].hash {
            EntryClass::Identical
        } else {
            EntryClass::Changed
        },
        None => if has_hash(t, s[i].hash) {
            EntryClass::Moved
        } else {
            EntryClass::Missing
        },
    }
}

/// The source entries among the first `n` that stand for their path and
/// whose class is `c`, in order.
pub open spec fn of_class(s: Seq<EntryView>, t: Seq<EntryView>, c: EntryClass, n: nat) -> Seq<EntryView>
    decreases n,
{
    if n == 0 {
        Seq::empty()
    } else {
        of_class(s, t, c, (n - 1) as nat) + if stands_for_path(s, n - 1) && classify(s, t, n - 1)
            == c {
            seq![s[n - 1]]
        } else {
            Seq::empty()
        }
    }
}

/// The changed pairs among the first `n` source entries: each with the target
/// entry of the same path.
pub open spec fn changed_pairs(s: Seq<EntryView>, t: Seq<EntryView>, n: nat) -> Seq<(EntryView, EntryView)>
    decreases n,
{
    if n == 0 {
        Seq::empty()
    } else {
        changed_pairs(s, t, (n - 1) as nat) + if stands_for_path(s, n - 1) && classify(s, t, n - 1)
            == EntryClass::Changed {
            seq![(s[n - 1], t[last_with_path(t, s[n - 1].path, t.len())->0 as int])]
        } else {
            Seq::empty()
        }
    }
}

/// Whether target entry `j` is new: it stands for its path, and neither its
/// path nor its hash is in the source.
pub open spec fn is_new(s: Seq<EntryView>, t: Seq<EntryView>, j: int) -> bool {
    stands_for_path(t, j) && !has_path(s, t[j].path) && !has_hash(s, t[j].hash)
}

/// The new entries among the first `n` target entries, in order.
pub open spec fn new_entries(s: Seq<EntryView>, t: Seq<EntryView>, n: nat) -> Seq<EntryView>
    decreases n,
{
    if n == 0 {
        Seq::empty()
    } else {
        new_entries(s, t, (n - 1) as nat) + if is_new(s, t, n - 1) {
            seq![t[n - 1]]
        } else {
            Seq::empty()
        }
    }
}

/// Differences between a source map and a target map.
#[derive(Debug)]
pub struct ComparisonReport {
    pub identical: Vec<MapEntry>,
    /// (source, target)
    pub changed: Vec<(MapEntry, MapEntry)>,
    /// (source, target): same hash, different path
    pub moved: Vec<(MapEntry, MapEntry)>,
    /// In the source, absent from the target.
    pub missing: Vec<MapEntry>,
    /// In the target, absent from the source.
    pub new: Vec<MapEntry>,
}

impl Default for ComparisonReport {
    /// Same as `new`.
    fn default() -> (r: ComparisonReport)
        ensures
            r.identical@.len() == 0,
            r.changed@.len() == 0,
            r.moved@.len() == 0,
            r.missing@.len() == 0,
            r.new@.len() == 0,
    {
        ComparisonReport::new()
    }
}

impl ComparisonReport {
    /// An empty report.
    pub fn new() -> (r: ComparisonReport)
        ensures
            r.identical@.len() == 0,
            r.changed@.len() == 0,
            r.moved@.len() == 0,
            r.missing@.len() == 0,
            r.new@.len() == 0,
    {
        ComparisonReport {
            identical: Vec::new(),
            changed: Vec::new(),
            moved: Vec::new(),
            missing: Vec::new(),
            new: Vec::new(),
        }
    }
}

proof fn lemma_entries_push(v: Seq<MapEntry>, e: MapEntry)
    ensures
        entries_view(v.push(e)) == entries_view(v).push(e@),
{
    assert(entries_view(v.push(e)) =~= entries_view(v).push(e@));
}

proof fn lemma_pairs_push(v: Seq<(MapEntry, MapEntry)>, p: (MapEntry, MapEntry))
    ensures
        pairs_view(v.push(p)) == pairs_view(v).push((p.0@, p.1@)),
        pairs_view(v.push(p)).map_values(|q: (EntryView, EntryView)| q.0) == pairs_view(v).map_values(
            |q: (EntryView, EntryView)| q.0,
        ).push(p.0@),
{
    assert(pairs_view(v.push(p)) =~= pairs_view(v).push((p.0@, p.1@)));
    assert(pairs_view(v.push(p)).map_values(|q: (EntryView, EntryView)| q.0) =~= pairs_view(
        v,
    ).map_values(|q: (EntryView, EntryView)| q.0).push(p.0@));
}

/// Index of the last of the first `n` entries with path `p`.
fn find_last_path(v: &Vec<MapEntry>, p: &str, n: usize) -> (r: Option<usize>)
    requires
        n <= v@.len(),
    ensures
        r is None <==> last_with_path(entries_view(v@), p@, n as nat) is None,
        r matches Some(j) ==> j < n && last_with_path(entries_view(v@), p@, n as nat) == Some(
            j as nat,
        ),
    decreases n,
{
    if n == 0 {
        None
    } else if str_eq(v[n - 1].path.as_str(), p) {
        proof {
            assert(entries_view(v@)[n - 1] == v@[n - 1]@);
        }
        Some(n - 1)
    } else {
        proof {
            assert(entries_view(v@)[n - 1] == v@[n - 1]@);
        }
        find_last_path(v, p, n - 1)
    }
}

/// Index of the first entry with hash `h` whose path is not in `taken`, else
/// of the first entry with hash `h`, if any.
fn pick_with_hash(v: &Vec<MapEntry>, h: &str, taken: &Vec<String>) -> (r: Option<usize>)
    ensures
        r is Some <==> has_hash(entries_view(v@), h@),
        r matches Some(j) ==> j < v@.len() && v@[j as int].hash@ == h@,
{
    let mut first: Option<usize> = None;
    let mut j: usize = 0;
    while j < v.len()
        invariant
            j <= v@.len(),
            first is None <==> (forall|k: int| 0 <= k < j ==> v@[k].hash@ != h@),
            first matches Some(f) ==> f < v@.len() && v@[f as int].hash@ == h@,
        decreases v@.len() - j,
    {
        if str_eq(v[j].hash.as_str(), h) {
            if first.is_none() {
                first = Some(j);
            }
            if !contains_text(taken, v[j].path.as_str()) {
                proof {
                    assert(entries_view(v@)[j as int].hash == h@);
                }
                return Some(j);
            }
        }
        j = j + 1;
    }
    proof {
        let ev = entries_view(v@);
        if first is None {
            assert forall|k: int| 0 <= k < ev.len() implies #[trigger] ev[k].hash != h@ by {
                assert(ev[k] == v@[k]@);
            }
        } else {
            let f = first->0 as int;
            assert(ev[f].hash == h@);
        }
    }
    first
}

/// Whether some string of `v` equals `s`.
fn contains_text(v: &Vec<String>, s: &str) -> (r: bool)
    ensures
        r == (exists|k: int| 0 <= k < v@.len() && #[trigger] v@[k]@ == s@),
{
    let mut k: usize = 0;
    while k < v.len()
        invariant
            k <= v@.len(),
            forall|m: int| 0 <= m < k ==> #[trigger] v@[m]@ != s@,
        decreases v@.len() - k,
    {
        if str_eq(v[k].as_str(), s) {
            return true;
        }
        k = k + 1;
    }
    false
}

/// Whether some entry has hash `h`.
fn any_with_hash(v: &Vec<MapEntry>, h: &str) -> (r: bool)
    ensures
        r == has_hash(entries_view(v@), h@),
{
    let mut k: usize = 0;
    while k < v.len()
        invariant
            k <= v@.len(),
            forall|m: int| 0 <= m < k ==> #[trigger] v@[m].hash@ != h@,
        decreases v@.len() - k,
    {
        if str_eq(v[k].hash.as_str(), h) {
            proof {
                assert(entries_view(v@)[k as int].hash == h@);
            }
            return true;
        }
        k = k + 1;
    }
    proof {
        let ev = entries_view(v@);
        assert forall|m: int| 0 <= m < ev.len() implies #[trigger] ev[m].hash != h@ by {
            assert(ev[m] == v@[m]@);
        }
    }
    false
}

/// Compares a source map with a target map.
pub fn compare_maps(source: Vec<MapEntry>, target: Vec<MapEntry>) -> (r: ComparisonReport)
    ensures
        ({
            let s = entries_view(source@);
            let t = entries_view(target@);
            &&& entries_view(r.identical@) == of_class(s, t, EntryClass::Identical, s.len())
            &&& pairs_view(r.changed@) == changed_pairs(s, t, s.len())
            &&& entries_view(r.missing@) == of_class(s, t, EntryClass::Missing, s.len())
            &&& pairs_view(r.moved@).map_values(|p: (EntryView, EntryView)| p.0) == of_class(
                s,
                t,
                EntryClass::Moved,
                s.len(),
            )
            &&& forall|k: int|
                0 <= k < r.moved@.len() ==> {
                    &&& (#[trigger] r.moved@[k]).1@.hash == r.moved@[k].0@.hash
                    &&& exists|j: int| 0 <= j < t.len() && t[j] == r.moved@[k].1@
                }
            &&& entries_view(r.new@) == new_entries(s, t, t.len())
        }),
{
    let ghost s = entries_view(source@);
    let ghost t = entries_view(target@);
    let mut report = ComparisonReport::new();
    let mut taken: Vec<String> = Vec::new();
    let ns = source.len();
    let nt = target.len();
    let mut i: usize = 0;
    while i < ns
        invariant
            i <= ns,
            ns == source@.len(),
            nt == target@.len(),
            s == entries_view(source@),
            t == entries_view(target@),
            entries_view(report.identical@) == of_class(s, t, EntryClass::Identical, i as nat),
            pairs_view(report.changed@) == changed_pairs(s, t, i as nat),
            entries_view(report.missing@) == of_class(s, t, EntryClass::Missing, i as nat),
            pairs_view(report.moved@).map_values(|p: (EntryView, EntryView)| p.0) == of_class(
                s,
                t,
                EntryClass::Moved,
                i as nat,
            ),
            forall|k: int|
                0 <= k < report.moved@.len() ==> {
                    &&& (#[trigger] report.moved@[k]).1@.hash == report.moved@[k].0@.hash
                    &&& exists|j: int| 0 <= j < t.len() && t[j] == report.moved@[k].1@
                },
            report.new@.len() == 0,
        decreases ns - i,
    {
        let e = &source[i];
        let ghost ev = s[i as int];
        assert(ev == e@);
        let last_src = find_last_path(&source, e.path.as_str(), ns);
        let ghost old_identical = report.identical@;
        let ghost old_changed = report.changed@;
        let ghost old_missing = report.missing@;
        let ghost old_moved = report.moved@;
        if last_src == Some(i) {
            match find_last_path(&target, e.path.as_str(), nt) {
                Some(j) => {
                    let te = &target[j];
                    assert(t[j as int] == te@);
                    if str_eq(te.hash.as_str(), e.hash.as_str()) {
                        let c = e.copied();
                        proof {
                            lemma_entries_push(report.identical@, c);
                        }
                        report.identical.push(c);
                    } else {
                        let pair = (e.copied(), te.copied());
                        proof {
                            lemma_pairs_push(report.changed@, pair);
                        }
                        report.changed.push(pair);
                    }
                    taken.push(te.path.clone());
                },
                None => {
                    match pick_with_hash(&target, e.hash.as_str(), &taken) {
                        Some(j) => {
                            let te = &target[j];
                            assert(t[j as int] == te@);
                            taken.push(te.path.clone());
                            let pair = (e.copied(), te.copied());
                            proof {
                                lemma_pairs_push(report.moved@, pair);
                            }
                            report.moved.push(pair);
                            proof {
                                let k = report.moved@.len() - 1;
                                assert(report.moved@[k] == pair);
                                assert(t[j as int] == report.moved@[k].1@);
                                assert forall|m: int|
                                    0 <= m < report.moved@.len() implies {
                                        &&& (#[trigger] report.moved@[m]).1@.hash
                                            == report.moved@[m].0@.hash
                                        &&& exists|q: int|
                                            0 <= q < t.len() && t[q] == report.moved@[m].1@
                                    } by {
                                    if m < k {
                                        assert(report.moved@[m] == old_moved[m]);
                                    }
                                }
                            }
                        },
                        None => {
                            let c = e.copied();
                            proof {
                                lemma_entries_push(report.missing@, c);
                            }
                            report.missing.push(c);
                        },
                    }
                },
            }
        }
        proof {
            assert(entries_view(report.identical@) =~= of_class(s, t, EntryClass::Identical, (i + 1) as nat));
            assert(pairs_view(report.changed@) =~= changed_pairs(s, t, (i + 1) as nat));
            assert(entries_view(report.missing@) =~= of_class(s, t, EntryClass::Missing, (i + 1) as nat));
            assert(pairs_view(report.moved@).map_values(|p: (EntryView, EntryView)| p.0) =~= of_class(
                s,
                t,
                EntryClass::Moved,
                (i + 1) as nat,
            ));
        }
        i = i + 1;
    }
    let mut j: usize = 0;
    while j < nt
        invariant
            j <= nt,
            ns == source@.len(),
            nt == target@.len(),
            s == entries_view(source@),
            t == entries_view(target@),
            entries_view(report.new@) == new_entries(s, t, j as nat),
            entries_view(report.identical@) == of_class(s, t, EntryClass::Identical, s.len()),
            pairs_view(report.changed@) == changed_pairs(s, t, s.len()),
            entries_view(report.missing@) == of_class(s, t, EntryClass::Missing, s.len()),
            pairs_view(report.moved@).map_values(|p: (EntryView, EntryView)| p.0) == of_class(
                s,
                t,
                EntryClass::Moved,
                s.len(),
            ),
            forall|k: int|
                0 <= k < report.moved@.len() ==> {
                    &&& (#[trigger] report.moved@[k]).1@.hash == report.moved@[k].0@.hash
                    &&& exists|m: int| 0 <= m < t.len() && t[m] == report.moved@[k].1@
                },
        decreases nt - j,
    {
        let te = &target[j];
        assert(t[j as int] == te@);
        let last_tgt = find_last_path(&target, te.path.as_str(), nt);
        if last_tgt == Some(j) {
            let in_src_path = find_last_path(&source, te.path.as_str(), ns);
            if in_src_path.is_none() && !any_with_hash(&source, te.hash.as_str()) {
                let c = te.copied();
                proof {
                    lemma_entries_push(report.new@, c);
                }
                report.new.push(c);
            }
        }
        assert(entries_view(report.new@) =~= new_entries(s, t, (j + 1) as nat));
        j = j + 1;
    }
    report
}

/// The kind of difference a row of a comparison reports.
#[derive(Debug, Clone, Copy, PartialEq, Eq, Structural)]
pub enum ChangeStatus {
    Identical,
    Changed,
    Moved,
    Missing,
    New,
}

/// One row of a flat comparison listing: the source and target entries it
/// concerns (an identical entry stands on both sides).
pub struct ChangeRow {
    pub status: ChangeStatus,
    pub source: Option<MapEntry>,
    pub target: Option<MapEntry>,
}

/// A row as contracts see it.
pub open spec fn row_view(r: ChangeRow) -> (ChangeStatus, Option<EntryView>, Option<EntryView>) {
    (
        r.status,
        match r.source {
            Some(e) => Some(e@),
            None => None,
        },
        match r.target {
            Some(e) => Some(e@),
            None => None,
        },
    )
}

/// Rows for single entries, each on the given sides.
pub open spec fn single_rows(
    v: Seq<EntryView>,
    status: ChangeStatus,
    on_source: bool,
    on_target: bool,
) -> Seq<(ChangeStatus, Option<EntryView>, Option<EntryView>)> {
    v.map_values(
        |e: EntryView|
            (
                status,
                if on_source {
                    Some(e)
                } else {
                    None
                },
                if on_target {
                    Some(e)
                } else {
                    None
                },
            ),
    )
}

/// Rows for pairs of entries.
pub open spec fn pair_rows(v: Seq<(EntryView, EntryView)>, status: ChangeStatus) -> Seq<
    (ChangeStatus, Option<EntryView>, Option<EntryView>),
> {
    v.map_values(|p: (EntryView, EntryView)| (status, Some(p.0), Some(p.1)))
}

/// The rows of a report: identical, changed, moved, missing, then new, each
/// group in the report's order.
pub open spec fn report_rows(r: ComparisonReport) -> Seq<(ChangeStatus, Option<EntryView>, Option<EntryView>)> {
    single_rows(entries_view(r.identical@), ChangeStatus::Identical, true, true) + pair_rows(
        pairs_view(r.changed@),
        ChangeStatus::Changed,
    ) + pair_rows(pairs_view(r.moved@), ChangeStatus::Moved) + single_rows(
        entries_view(r.missing@),
        ChangeStatus::Missing,
        true,
        false,
    ) + single_rows(entries_view(r.new@), ChangeStatus::New, false, true)
}

fn push_singles(
    rows: &mut Vec<ChangeRow>,
    v: &Vec<MapEntry>,
    status: ChangeStatus,
    on_source: bool,
    on_target: bool,
)
    ensures
        final(rows)@.map_values(|r: ChangeRow| row_view(r)) == old(rows)@.map_values(
            |r: ChangeRow| row_view(r),
        ) + single_rows(entries_view(v@), status, on_source, on_target),
{
    let ghost start = old(rows)@.map_values(|r: ChangeRow| row_view(r));
    let mut i: usize = 0;
    while i < v.len()
        invariant
            i <= v@.len(),
            rows@.map_values(|r: ChangeRow| row_view(r)) == start + single_rows(
                entries_view(v@),
                status,
                on_source,
                on_target,
            ).take(i as int),
        decreases v@.len() - i,
    {
        let e = &v[i];
        let row = ChangeRow {
            status,
            source: if on_source {
                Some(e.copied())
            } else {
                None
            },
            target: if on_target {
                Some(e.copied())
            } else {
                None
            },
        };
        let ghost before = rows@;
        rows.push(row);
        proof {
            assert(rows@.map_values(|r: ChangeRow| row_view(r)) =~= before.map_values(
                |r: ChangeRow| row_view(r),
            ).push(row_view(row)));
            assert(single_rows(entries_view(v@), status, on_source, on_target).take(i + 1) =~= single_rows(
                entries_view(v@),
                status,
                on_source,
                on_target,
            ).take(i as int).push(row_view(row)));
        }
        i = i + 1;
    }
    assert(single_rows(entries_view(v@), status, on_source, on_target).take(v@.len() as int)
        =~= single_rows(entries_view(v@), status, on_source, on_target));
}

fn push_pairs(rows: &mut Vec<ChangeRow>, v: &Vec<(MapEntry, MapEntry)>, status: ChangeStatus)
    ensures
        final(rows)@.map_values(|r: ChangeRow| row_view(r)) == old(rows)@.map_values(
            |r: ChangeRow| row_view(r),
        ) + pair_rows(pairs_view(v@), status),
{
    let ghost start = old(rows)@.map_values(|r: ChangeRow| row_view(r));
    let mut i: usize = 0;
    while i < v.len()
        invariant
            i <= v@.len(),
            rows@.map_values(|r: ChangeRow| row_view(r)) == start + pair_rows(
                pairs_view(v@),
                status,
            ).take(i as int),
        decreases v@.len() - i,
    {
        let p = &v[i];
        let row = ChangeRow { status, source: Some(p.0.copied()), target: Some(p.1.copied()) };
        let ghost before = rows@;
        rows.push(row);
        proof {
            assert(rows@.map_values(|r: ChangeRow| row_view(r)) =~= before.map_values(
                |r: ChangeRow| row_view(r),
            ).push(row_view(row)));
            assert(pair_rows(pairs_view(v@), status).take(i + 1) =~= pair_rows(
                pairs_view(v@),
                status,
            ).take(i as int).push(row_view(row)));
        }
        i = i + 1;
    }
    assert(pair_rows(pairs_view(v@), status).take(v@.len() as int) =~= pair_rows(
        pairs_view(v@),
        status,
    ));
}

impl ComparisonReport {
    /// The report as a flat list of rows: identical, changed, moved, missing,
    /// then new.
    pub fn rows(&self) -> (r: Vec<ChangeRow>)
        ensures
            r@.map_values(|x: ChangeRow| row_view(x)) == report_rows(*self),
    {
        let mut rows: Vec<ChangeRow> = Vec::new();
        proof {
            assert(rows@.map_values(|x: ChangeRow| row_view(x)) =~= Seq::empty());
        }
        push_singles(&mut rows, &self.identical, ChangeStatus::Identical, true, true);
        push_pairs(&mut rows, &self.changed, ChangeStatus::Changed);
        push_pairs(&mut rows, &self.moved, ChangeStatus::Moved);
        push_singles(&mut rows, &self.missing, ChangeStatus::Missing, true, false);
        push_singles(&mut rows, &self.new, ChangeStatus::New, false, true);
        proof {
            assert(rows@.map_values(|x: ChangeRow| row_view(x)) =~= report_rows(*self));
        }
        rows
    }
}

} // verus!
