//! Summaries of a hash map: totals, duplicate groups and the largest entries.

use crate::compare::{entries_view, EntryView, MapEntry};
use crate::memory::nat_min;
use crate::text::{extension_of, lower_of, path_extension, str_eq, to_lower};
use vstd::prelude::*;

verus! {

/// Which sections a report shows.
#[derive(Debug, Clone, Copy, PartialEq, Eq, Structural)]
pub struct ReportSections {
    pub stats: bool,
    pub duplicates: bool,
    pub largest: bool,
}

/// The sections an include list names, from lower-cased names: stats,
/// duplicates, largest (or largest_files); unknown names are ignored.
pub open spec fn sections_named(names: Seq<Seq<char>>, n: nat) -> ReportSections
    decreases n,
{
    if n == 0 {
        ReportSections { stats: false, duplicates: false, largest: false }
    } else {
        let s = sections_named(names, (n - 1) as nat);
        let w = names[n - 1];
        if w == "stats"@ {
            ReportSections { stats: true, ..s }
        } else if w == "duplicates"@ {
            ReportSections { duplicates: true, ..s }
        } else if w == "largest"@ || w == "largest_files"@ {
            ReportSections { largest: true, ..s }
        } else {
            s
        }
    }
}

/// The lower-cased text of each include.
pub open spec fn lowered_all(v: Seq<String>) -> Seq<Seq<char>> {
    v.map_values(|s: String| lower_of(s@))
}

impl ReportSections {
    /// Sections from an include list (case-insensitive); an empty list shows
    /// every section.
    pub fn from_includes(includes: &Vec<String>) -> (r: ReportSections)
        ensures
            includes@.len() == 0 ==> r == (ReportSections {
                stats: true,
                duplicates: true,
                largest: true,
            }),
            includes@.len() > 0 ==> r == sections_named(
                lowered_all(includes@),
                includes@.len(),
            ),
    {
        if includes.len() == 0 {
            return ReportSections { stats: true, duplicates: true, largest: true };
        }
        let mut s = ReportSections { stats: false, duplicates: false, largest: false };
        let mut i: usize = 0;
        while i < includes.len()
            invariant
                i <= includes@.len(),
                s == sections_named(lowered_all(includes@), i as nat),
            decreases includes@.len() - i,
        {
            let lowered = to_lower(includes[i].as_str());
            let w = lowered.as_str();
            proof {
                assert(lowered_all(includes@)[i as int] == w@);
            }
            if str_eq(w, "stats") {
                s.stats = true;
            } else if str_eq(w, "duplicates") {
                s.duplicates = true;
            } else if str_eq(w, "largest") || str_eq(w, "largest_files") {
                s.largest = true;
            }
            i = i + 1;
        }
        s
    }
}

/// Sum of the sizes of the first `n` entries.
pub open spec fn size_sum(v: Seq<EntryView>, n: nat) -> nat
    decreases n,
{
    if n == 0 {
        0
    } else {
        size_sum(v, (n - 1) as nat) + v[n - 1].size as nat
    }
}

/// The distinct hashes among the first `n` entries, in order of first
/// appearance.
pub open spec fn hash_keys(v: Seq<EntryView>, n: nat) -> Seq<Seq<char>>
    decreases n,
{
    if n == 0 {
        Seq::empty()
    } else {
        let k = hash_keys(v, (n - 1) as nat);
        if k.contains(v[n - 1].hash) {
            k
        } else {
            k.push(v[n - 1].hash)
        }
    }
}

/// The entries among the first `n` with hash `h`, in order.
pub open spec fn with_hash(v: Seq<EntryView>, h: Seq<char>, n: nat) -> Seq<EntryView>
    decreases n,
{
    if n == 0 {
        Seq::empty()
    } else {
        let m = with_hash(v, h, (n - 1) as nat);
        if v[n - 1].hash == h {
            m.push(v[n - 1])
        } else {
            m
        }
    }
}

/// Entries sharing one hash.
pub struct DuplicateGroup {
    pub hash: String,
    pub count: usize,
    /// Sum of the sizes, saturating.
    pub total_bytes: u64,
    /// Sum of the sizes of all but the first, saturating.
    pub wasted_bytes: u64,
    pub paths: Vec<String>,
}

/// Whether `g` is the group of hash `h` in `v`.
pub open spec fn group_of(g: DuplicateGroup, v: Seq<EntryView>, h: Seq<char>) -> bool {
    let m = with_hash(v, h, v.len());
    &&& g.hash@ == h
    &&& g.count == m.len()
    &&& g.total_bytes == nat_min(size_sum(m, m.len()), u64::MAX as nat)
    &&& m.len() >= 1 ==> g.wasted_bytes == nat_min(
        (size_sum(m, m.len()) - m[0].size) as nat,
        u64::MAX as nat,
    )
    &&& g.paths@.len() == m.len()
    &&& forall|i: int| 0 <= i < m.len() ==> #[trigger] g.paths@[i]@ == m[i].path
}

/// Distinct hashes of the entries, in order of first appearance.
fn distinct_hashes(entries: &Vec<MapEntry>) -> (r: Vec<String>)
    ensures
        r@.len() == hash_keys(entries_view(entries@), entries@.len()).len(),
        forall|i: int| 0 <= i < r@.len() ==> #[trigger] r@[i]@ == hash_keys(
            entries_view(entries@),
            entries@.len(),
        )[i],
{
    let ghost v = entries_view(entries@);
    let mut keys: Vec<String> = Vec::new();
    let mut i: usize = 0;
    while i < entries.len()
        invariant
            i <= entries@.len(),
            v == entries_view(entries@),
            keys@.len() == hash_keys(v, i as nat).len(),
            forall|k: int| 0 <= k < keys@.len() ==> #[trigger] keys@[k]@ == hash_keys(v, i as nat)[k],
        decreases entries@.len() - i,
    {
        let h = entries[i].hash.as_str();
        assert(v[i as int].hash == h@);
        let ghost ks = hash_keys(v, i as nat);
        let mut found = false;
        let mut k: usize = 0;
        while k < keys.len()
            invariant
                k <= keys@.len(),
                keys@.len() == ks.len(),
                forall|m: int| 0 <= m < keys@.len() ==> #[trigger] keys@[m]@ == ks[m],
                found == (exists|m: int| 0 <= m < k && ks[m] == h@),
            decreases keys@.len() - k,
        {
            if str_eq(keys[k].as_str(), h) {
                found = true;
            }
            k = k + 1;
        }
        proof {
            if found {
                let m = choose|m: int| 0 <= m < keys@.len() && ks[m] == h@;
                assert(ks.contains(h@));
            } else {
                assert(!ks.contains(h@)) by {
                    if ks.contains(h@) {
                        let m = choose|m: int| 0 <= m < ks.len() && ks[m] == h@;
                        assert(0 <= m < k);
                    }
                }
            }
        }
        if !found {
            keys.push(h.to_owned());
        }
        i = i + 1;
    }
    keys
}

/// The group of hash `h` among the entries.
fn group_for(entries: &Vec<MapEntry>, h: &str) -> (r: DuplicateGroup)
    ensures
        group_of(r, entries_view(entries@), h@),
{
    let ghost v = entries_view(entries@);
    let mut count: usize = 0;
    let mut total: u64 = 0;
    let mut wasted: u64 = 0;
    let mut paths: Vec<String> = Vec::new();
    let mut i: usize = 0;
    while i < entries.len()
        invariant
            i <= entries@.len(),
            v == entries_view(entries@),
            count == with_hash(v, h@, i as nat).len(),
            count <= i,
            total == nat_min(
                size_sum(with_hash(v, h@, i as nat), count as nat),
                u64::MAX as nat,
            ),
            count >= 1 ==> wasted == nat_min(
                (size_sum(with_hash(v, h@, i as nat), count as nat) - with_hash(
                    v,
                    h@,
                    i as nat,
                )[0].size) as nat,
                u64::MAX as nat,
            ),
            count == 0 ==> wasted == 0,
            paths@.len() == count,
            forall|k: int| 0 <= k < count ==> #[trigger] paths@[k]@ == with_hash(v, h@, i as nat)[k].path,
        decreases entries@.len() - i,
    {
        let e = &entries[i];
        assert(v[i as int] == e@);
        if str_eq(e.hash.as_str(), h) {
            let ghost m = with_hash(v, h@, i as nat);
            let ghost m2 = with_hash(v, h@, (i + 1) as nat);
            assert(m2 == m.push(e@));
            proof {
                lemma_size_sum_prefix(m2, count as nat);
                assert(m2.take(count as int) =~= m);
                lemma_size_sum_take(m2, count as nat);
                if count >= 1 {
                    assert(m2[0] == m[0]);
                    lemma_size_sum_first(m, count as nat);
                }
            }
            total = total.saturating_add(e.size);
            if count >= 1 {
                wasted = wasted.saturating_add(e.size);
            }
            paths.push(e.path.clone());
            count = count + 1;
        }
        i = i + 1;
    }
    DuplicateGroup { hash: h.to_owned(), count, total_bytes: total, wasted_bytes: wasted, paths }
}

/// `size_sum` over the first `n` entries of `v` depends only on them.
proof fn lemma_size_sum_take(v: Seq<EntryView>, n: nat)
    requires
        n <= v.len(),
    ensures
        size_sum(v.take(n as int), n) == size_sum(v, n),
    decreases n,
{
    if n > 0 {
        lemma_size_sum_take(v, (n - 1) as nat);
        assert(v.take(n as int).take((n - 1) as int) =~= v.take((n - 1) as int));
        lemma_size_sum_take(v.take(n as int), (n - 1) as nat);
    }
}

/// Extending a prefix by one entry adds its size.
proof fn lemma_size_sum_prefix(v: Seq<EntryView>, n: nat)
    requires
        n < v.len(),
    ensures
        size_sum(v, n + 1) == size_sum(v, n) + v[n as int].size,
{
}

/// A sum over at least one entry is at least the first entry's size.
proof fn lemma_size_sum_first(v: Seq<EntryView>, n: nat)
    requires
        1 <= n <= v.len(),
    ensures
        size_sum(v, n) >= v[0].size,
    decreases n,
{
    if n > 1 {
        lemma_size_sum_first(v, (n - 1) as nat);
    }
}

/// The groups of entries that share a hash with at least one other entry,
/// in order of the hash's first appearance.
pub open spec fn duplicate_keys(v: Seq<EntryView>) -> Seq<Seq<char>> {
    shared_keys(v, hash_keys(v, v.len()), hash_keys(v, v.len()).len())
}

/// The first `n` of `keys` held by more than one entry, in order.
pub open spec fn shared_keys(v: Seq<EntryView>, keys: Seq<Seq<char>>, n: nat) -> Seq<Seq<char>>
    decreases n,
{
    if n == 0 {
        Seq::empty()
    } else {
        let s = shared_keys(v, keys, (n - 1) as nat);
        if with_hash(v, keys[n - 1], v.len()).len() > 1 {
            s.push(keys[n - 1])
        } else {
            s
        }
    }
}

/// The duplicate groups of a map, in order of first appearance of the hash.
pub fn duplicate_groups(entries: &Vec<MapEntry>) -> (r: Vec<DuplicateGroup>)
    ensures
        r@.len() == duplicate_keys(entries_view(entries@)).len(),
        forall|i: int|
            0 <= i < r@.len() ==> group_of(
                #[trigger] r@[i],
                entries_view(entries@),
                duplicate_keys(entries_view(entries@))[i],
            ),
{
    let ghost v = entries_view(entries@);
    let keys = distinct_hashes(entries);
    let ghost ks = hash_keys(v, v.len());
    let mut out: Vec<DuplicateGroup> = Vec::new();
    let mut i: usize = 0;
    while i < keys.len()
        invariant
            i <= keys@.len(),
            v == entries_view(entries@),
            ks == hash_keys(v, v.len()),
            keys@.len() == ks.len(),
            forall|k: int| 0 <= k < keys@.len() ==> #[trigger] keys@[k]@ == ks[k],
            out@.len() == shared_keys(v, ks, i as nat).len(),
            forall|k: int|
                0 <= k < out@.len() ==> group_of(#[trigger] out@[k], v, shared_keys(v, ks, i as nat)[k]),
        decreases keys@.len() - i,
    {
        let g = group_for(entries, keys[i].as_str());
        let ghost before = out@;
        if g.count > 1 {
            out.push(g);
            proof {
                assert forall|k: int|
                    0 <= k < out@.len() implies group_of(#[trigger] out@[k], v, shared_keys(v, ks, (i + 1) as nat)[k]) by {
                    if k < before.len() {
                        assert(out@[k] == before[k]);
                    }
                }
            }
        }
        i = i + 1;
    }
    out
}

/// Totals of a map.
pub struct ReportSummary {
    pub total_files: usize,
    /// Sum of all sizes, saturating.
    pub total_size_bytes: u64,
    pub duplicate_groups: usize,
    /// Entries beyond the first in each duplicate group.
    pub duplicate_files: usize,
    /// Sum of the groups' wasted bytes, saturating.
    pub duplicate_wasted_bytes: u64,
}

/// Sum of the counts of the first `n` groups, less one each.
pub open spec fn extra_files(g: Seq<DuplicateGroup>, n: nat) -> nat
    decreases n,
{
    if n == 0 {
        0
    } else {
        extra_files(g, (n - 1) as nat) + (g[n - 1].count - 1) as nat
    }
}

/// Sum of the wasted bytes of the first `n` groups.
pub open spec fn wasted_sum(g: Seq<DuplicateGroup>, n: nat) -> nat
    decreases n,
{
    if n == 0 {
        0
    } else {
        wasted_sum(g, (n - 1) as nat) + g[n - 1].wasted_bytes as nat
    }
}

/// Totals of a map and of its duplicate groups.
pub fn summarize(entries: &Vec<MapEntry>, groups: &Vec<DuplicateGroup>) -> (r: ReportSummary)
    requires
        forall|i: int| 0 <= i < groups@.len() ==> (#[trigger] groups@[i]).count >= 1,
        forall|i: int| 0 <= i < groups@.len() ==> (#[trigger] groups@[i]).count <= entries@.len(),
        groups@.len() <= entries@.len(),
    ensures
        r.total_files == entries@.len(),
        r.total_size_bytes == nat_min(
            size_sum(entries_view(entries@), entries@.len()),
            u64::MAX as nat,
        ),
        r.duplicate_groups == groups@.len(),
        r.duplicate_files == nat_min(extra_files(groups@, groups@.len()), usize::MAX as nat),
        r.duplicate_wasted_bytes == nat_min(wasted_sum(groups@, groups@.len()), u64::MAX as nat),
{
    let ghost v = entries_view(entries@);
    let mut total: u64 = 0;
    let mut i: usize = 0;
    while i < entries.len()
        invariant
            i <= entries@.len(),
            v == entries_view(entries@),
            total == nat_min(size_sum(v, i as nat), u64::MAX as nat),
        decreases entries@.len() - i,
    {
        assert(v[i as int] == entries@[i as int]@);
        total = total.saturating_add(entries[i].size);
        i = i + 1;
    }
    let mut files: usize = 0;
    let mut wasted: u64 = 0;
    let mut j: usize = 0;
    while j < groups.len()
        invariant
            j <= groups@.len(),
            forall|k: int| 0 <= k < groups@.len() ==> (#[trigger] groups@[k]).count >= 1,
            files == nat_min(extra_files(groups@, j as nat), usize::MAX as nat),
            wasted == nat_min(wasted_sum(groups@, j as nat), u64::MAX as nat),
        decreases groups@.len() - j,
    {
        let extra = groups[j].count - 1;
        files = files.saturating_add(extra);
        wasted = wasted.saturating_add(groups[j].wasted_bytes);
        j = j + 1;
    }
    ReportSummary {
        total_files: entries.len(),
        total_size_bytes: total,
        duplicate_groups: groups.len(),
        duplicate_files: files,
        duplicate_wasted_bytes: wasted,
    }
}

/// Indices of the `k` largest keys, largest first (the earliest index first
/// among equal keys): every index at most once, and no index left out has a
/// larger key than one taken.
pub fn top_indices_by_key(keys: &Vec<u64>, k: usize) -> (r: Vec<usize>)
    ensures
        r@.len() == nat_min(k as nat, keys@.len()),
        forall|i: int| 0 <= i < r@.len() ==> (#[trigger] r@[i]) < keys@.len(),
        r@.no_duplicates(),
        forall|i: int, j: int|
            0 <= i < j < r@.len() ==> keys@[#[trigger] r@[i] as int] >= keys@[#[trigger] r@[j] as int],
        forall|i: int, j: int|
            0 <= i < r@.len() && 0 <= j < keys@.len() && !r@.contains(j as usize) ==> #[trigger] keys@[j]
                <= #[trigger] keys@[r@[i] as int],
{
    let n = keys.len();
    let want: usize = if k < n {
        k
    } else {
        n
    };
    let mut taken: Vec<bool> = vec![false; n];
    let mut r: Vec<usize> = Vec::new();
    while r.len() < want
        invariant
            n == keys@.len(),
            want == nat_min(k as nat, n as nat),
            r@.len() <= want,
            taken@.len() == n,
            forall|i: int| 0 <= i < r@.len() ==> (#[trigger] r@[i]) < n,
            r@.no_duplicates(),
            forall|j: int| 0 <= j < n ==> (taken@[j] <==> r@.contains(j as usize)),
            forall|i: int, j: int|
                0 <= i < j < r@.len() ==> keys@[#[trigger] r@[i] as int] >= keys@[#[trigger] r@[j] as int],
            forall|i: int, j: int|
                0 <= i < r@.len() && 0 <= j < n && !r@.contains(j as usize) ==> #[trigger] keys@[j]
                    <= #[trigger] keys@[r@[i] as int],
        decreases want - r@.len(),
    {
        let mut best: usize = n;
        let mut j: usize = 0;
        while j < n
            invariant
                n == keys@.len(),
                taken@.len() == n,
                j <= n,
                best == n || (best < j && !taken@[best as int]),
                best == n ==> forall|m: int| 0 <= m < j ==> taken@[m],
                best < n ==> forall|m: int| 0 <= m < j && !taken@[m] ==> keys@[m] <= keys@[best as int],
            decreases n - j,
        {
            if !taken[j] && (best == n || keys[j] > keys[best]) {
                best = j;
            }
            j = j + 1;
        }
        proof {
            if best == n {
                // fewer than `want` indices are taken, so one is free
                assert forall|m: int| 0 <= m < n implies #[trigger] r@.contains(m as usize) by {
                    assert(taken@[m]);
                }
                lemma_all_taken(r@, n as nat);
                assert(false);
            }
        }
        let ghost old_r = r@;
        let ghost old_taken = taken@;
        r.push(best);
        taken.set(best, true);
        proof {
            assert(!old_r.contains(best));
            assert forall|i: int, j2: int| 0 <= i < j2 < r@.len() implies keys@[#[trigger] r@[i] as int]
                >= keys@[#[trigger] r@[j2] as int] by {
                if j2 == r@.len() - 1 && i < old_r.len() {
                    assert(!old_r.contains(best));
                    assert(keys@[best as int] <= keys@[old_r[i] as int]);
                }
            }
            assert forall|m: int| 0 <= m < n implies (taken@[m] <==> r@.contains(m as usize)) by {
                if m == best as int {
                    assert(r@[r@.len() - 1] == best);
                } else {
                    if old_r.contains(m as usize) {
                        let w = choose|w: int| 0 <= w < old_r.len() && old_r[w] == m as usize;
                        assert(r@[w] == m as usize);
                    }
                    if r@.contains(m as usize) {
                        let w = choose|w: int| 0 <= w < r@.len() && r@[w] == m as usize;
                        assert(w < old_r.len());
                        assert(old_r[w] == m as usize);
                    }
                }
            }
            assert forall|i: int, j2: int|
                0 <= i < r@.len() && 0 <= j2 < n && !r@.contains(j2 as usize) implies #[trigger] keys@[j2]
                    <= #[trigger] keys@[r@[i] as int] by {
                assert(!old_r.contains(j2 as usize)) by {
                    if old_r.contains(j2 as usize) {
                        let w = choose|w: int| 0 <= w < old_r.len() && old_r[w] == j2 as usize;
                        assert(r@[w] == j2 as usize);
                    }
                }
                assert(r@[r@.len() - 1] == best);
                assert(r@.contains(best));
                assert(j2 != best as int);
                assert(!old_taken[j2]);
                if i < old_r.len() {
                    assert(r@[i] == old_r[i]);
                } else {
                    assert(r@[i] == best);
                }
            }
        }
    }
    r
}

/// A sequence of distinct indices below `n` that holds every one of them has
/// length at least `n`.
proof fn lemma_all_taken(r: Seq<usize>, n: nat)
    requires
        n <= usize::MAX,
        r.no_duplicates(),
        forall|m: int| 0 <= m < n ==> #[trigger] r.contains(m as usize),
    ensures
        r.len() >= n,
{
    vstd::set_lib::lemma_int_range(0, n as int);
    let ints = Set::new(|m: int| 0 <= m < n);
    let mapped = r.to_set().map(|u: usize| u as int);
    assert(ints.subset_of(mapped)) by {
        assert forall|m: int| ints.contains(m) implies mapped.contains(m) by {
            let u = m as usize;
            assert(u as int == m);
            assert(r.contains(u));
            assert(r.to_set().contains(u));
        }
    }
    r.unique_seq_to_set();
    vstd::seq_lib::seq_to_set_is_finite(r);
    vstd::set_lib::lemma_map_size_bound(r.to_set(), mapped, |u: usize| u as int);
    vstd::set_lib::lemma_len_subset(ints, mapped);
    assert(ints == vstd::set_lib::set_int_range(0, n as int));
}

/// The lower-cased extension of an entry's path.
pub open spec fn entry_ext(e: EntryView) -> Seq<char> {
    lower_of(extension_of(e.path))
}

/// The lower-cased extension of each entry.
pub open spec fn ext_seq(v: Seq<EntryView>) -> Seq<Seq<char>> {
    v.map_values(|e: EntryView| entry_ext(e))
}

/// The distinct keys among the first `n`, in order of first appearance.
pub open spec fn distinct_keys(keys: Seq<Seq<char>>, n: nat) -> Seq<Seq<char>>
    decreases n,
{
    if n == 0 {
        Seq::empty()
    } else {
        let k = distinct_keys(keys, (n - 1) as nat);
        if k.contains(keys[n - 1]) {
            k
        } else {
            k.push(keys[n - 1])
        }
    }
}

/// How many of the first `n` keys equal `x`.
pub open spec fn key_count(keys: Seq<Seq<char>>, x: Seq<char>, n: nat) -> nat
    decreases n,
{
    if n == 0 {
        0
    } else {
        key_count(keys, x, (n - 1) as nat) + if keys[n - 1] == x {
            1nat
        } else {
            0nat
        }
    }
}

/// The distinct extensions among the first `n` entries, in order of first
/// appearance.
pub open spec fn ext_keys(v: Seq<EntryView>, n: nat) -> Seq<Seq<char>> {
    distinct_keys(ext_seq(v), n)
}

/// How many of the first `n` entries have extension `x`.
pub open spec fn ext_count(v: Seq<EntryView>, x: Seq<char>, n: nat) -> nat {
    key_count(ext_seq(v), x, n)
}

/// The lower-cased extension of each entry.
fn entry_extensions(entries: &Vec<MapEntry>) -> (r: Vec<String>)
    ensures
        r@.len() == entries@.len(),
        forall|i: int| 0 <= i < r@.len() ==> #[trigger] r@[i]@ == entry_ext(entries@[i]@),
{
    let mut r: Vec<String> = Vec::new();
    let mut i: usize = 0;
    while i < entries.len()
        invariant
            i <= entries@.len(),
            r@.len() == i,
            forall|k: int| 0 <= k < i ==> #[trigger] r@[k]@ == entry_ext(entries@[k]@),
        decreases entries@.len() - i,
    {
        let ext = path_extension(entries[i].path.as_str());
        r.push(to_lower(ext.as_str()));
        i = i + 1;
    }
    r
}

/// Each distinct extension with the number of entries that have it, in order
/// of first appearance.
pub fn extension_counts(entries: &Vec<MapEntry>) -> (r: Vec<(String, usize)>)
    ensures
        r@.len() == ext_keys(entries_view(entries@), entries@.len()).len(),
        forall|i: int|
            0 <= i < r@.len() ==> {
                &&& (#[trigger] r@[i]).0@ == ext_keys(entries_view(entries@), entries@.len())[i]
                &&& r@[i].1 == ext_count(entries_view(entries@), r@[i].0@, entries@.len())
            },
{
    let exts = entry_extensions(entries);
    proof {
        assert(exts@.map_values(|s: String| s@) =~= ext_seq(entries_view(entries@)));
    }
    count_keys(&exts)
}

/// Each distinct key with the number of times it occurs, in order of first
/// appearance.
pub fn count_keys(keys: &Vec<String>) -> (r: Vec<(String, usize)>)
    ensures
        r@.len() == distinct_keys(keys@.map_values(|s: String| s@), keys@.len()).len(),
        forall|i: int|
            0 <= i < r@.len() ==> {
                &&& (#[trigger] r@[i]).0@ == distinct_keys(keys@.map_values(|s: String| s@), keys@.len())[i]
                &&& r@[i].1 == key_count(keys@.map_values(|s: String| s@), r@[i].0@, keys@.len())
            },
{
    let ghost v = keys@.map_values(|s: String| s@);
    let mut out: Vec<(String, usize)> = Vec::new();
    let mut i: usize = 0;
    while i < keys.len()
        invariant
            i <= keys@.len(),
            v == keys@.map_values(|s: String| s@),
            out@.len() == distinct_keys(v, i as nat).len(),
            forall|k: int|
                0 <= k < out@.len() ==> {
                    &&& (#[trigger] out@[k]).0@ == distinct_keys(v, i as nat)[k]
                    &&& out@[k].1 == key_count(v, out@[k].0@, i as nat)
                },
            forall|k: int| 0 <= k < out@.len() ==> (#[trigger] out@[k]).1 <= i,
        decreases keys@.len() - i,
    {
        let x = keys[i].as_str();
        assert(v[i as int] == x@);
        let ghost before = out@;
        let ghost ks = distinct_keys(v, i as nat);
        let mut found: usize = out.len();
        let mut k: usize = 0;
        while k < out.len()
            invariant
                k <= out@.len(),
                out@ == before,
                found == out@.len() || (found < k && out@[found as int].0@ == x@),
                found == out@.len() ==> forall|m: int| 0 <= m < k ==> out@[m].0@ != x@,
            decreases out@.len() - k,
        {
            if found == out.len() && str_eq(out[k].0.as_str(), x) {
                found = k;
            }
            k = k + 1;
        }
        if found < out.len() {
            let (name, count) = out.remove(found);
            out.insert(found, (name, count + 1));
            proof {
                assert(ks.contains(x@)) by {
                    assert(ks[found as int] == x@);
                }
                assert forall|m: int| 0 <= m < out@.len() implies {
                    &&& (#[trigger] out@[m]).0@ == distinct_keys(v, (i + 1) as nat)[m]
                    &&& out@[m].1 == key_count(v, out@[m].0@, (i + 1) as nat)
                } by {
                    if m != found as int {
                        assert(out@[m] == before[m]);
                        assert(before[m].0@ != x@) by {
                            assert(ks[m] != ks[found as int]) by {
                                lemma_distinct_keys_distinct(v, i as nat);
                            }
                        }
                    }
                }
            }
        } else {
            proof {
                assert(!ks.contains(x@)) by {
                    if ks.contains(x@) {
                        let m = choose|m: int| 0 <= m < ks.len() && ks[m] == x@;
                        assert(out@[m].0@ == x@);
                    }
                }
                lemma_key_count_absent(v, x@, i as nat);
            }
            out.push((x.to_owned(), 1));
            proof {
                assert forall|m: int| 0 <= m < out@.len() implies {
                    &&& (#[trigger] out@[m]).0@ == distinct_keys(v, (i + 1) as nat)[m]
                    &&& out@[m].1 == key_count(v, out@[m].0@, (i + 1) as nat)
                } by {
                    if m < before.len() {
                        assert(out@[m] == before[m]);
                        assert(before[m].0@ != x@);
                    }
                }
            }
        }
        i = i + 1;
    }
    out
}

/// The distinct keys are distinct.
proof fn lemma_distinct_keys_distinct(v: Seq<Seq<char>>, n: nat)
    ensures
        distinct_keys(v, n).no_duplicates(),
    decreases n,
{
    if n > 0 {
        lemma_distinct_keys_distinct(v, (n - 1) as nat);
    }
}

/// A key not among the distinct ones of the first `n` has count zero there.
proof fn lemma_key_count_absent(v: Seq<Seq<char>>, x: Seq<char>, n: nat)
    requires
        !distinct_keys(v, n).contains(x),
    ensures
        key_count(v, x, n) == 0,
    decreases n,
{
    if n > 0 {
        let k = distinct_keys(v, (n - 1) as nat);
        let last = v[n - 1];
        if k.contains(x) {
            let m = choose|m: int| 0 <= m < k.len() && k[m] == x;
            assert(distinct_keys(v, n)[m] == x);
        }
        if k.contains(last) {
            assert(last != x);
        } else {
            assert(distinct_keys(v, n)[k.len() as int] == last);
        }
        lemma_key_count_absent(v, x, (n - 1) as nat);
    }
}

impl DuplicateGroup {
    /// A copy of the group.
    pub fn copied(&self) -> (r: DuplicateGroup)
        ensures
            r.hash@ == self.hash@,
            r.count == self.count,
            r.total_bytes == self.total_bytes,
            r.wasted_bytes == self.wasted_bytes,
            r.paths@.len() == self.paths@.len(),
            forall|i: int| 0 <= i < r.paths@.len() ==> #[trigger] r.paths@[i]@ == self.paths@[i]@,
    {
        let mut paths: Vec<String> = Vec::new();
        let mut i: usize = 0;
        while i < self.paths.len()
            invariant
                i <= self.paths@.len(),
                paths@.len() == i,
                forall|k: int| 0 <= k < i ==> #[trigger] paths@[k]@ == self.paths@[k]@,
            decreases self.paths@.len() - i,
        {
            paths.push(self.paths[i].clone());
            i = i + 1;
        }
        DuplicateGroup {
            hash: self.hash.clone(),
            count: self.count,
            total_bytes: self.total_bytes,
            wasted_bytes: self.wasted_bytes,
            paths,
        }
    }
}

/// Whether `g` is the group of one of the duplicated hashes of `v`.
pub open spec fn is_duplicate_group(g: DuplicateGroup, v: Seq<EntryView>) -> bool {
    exists|j: int| 0 <= j < duplicate_keys(v).len() && group_of(g, v, #[trigger] duplicate_keys(v)[j])
}

/// Whether `e` equals one of the entries.
pub open spec fn is_entry_of(e: MapEntry, entries: Seq<MapEntry>) -> bool {
    exists|j: int| 0 <= j < entries.len() && e@ == (#[trigger] entries[j])@
}

/// The sections an include list asks for.
pub open spec fn requested_sections(includes: Seq<String>) -> ReportSections {
    if includes.len() == 0 {
        ReportSections { stats: true, duplicates: true, largest: true }
    } else {
        sections_named(lowered_all(includes), includes.len())
    }
}

/// Every shared key is held by more than one entry.
proof fn lemma_shared_keys_shared(v: Seq<EntryView>, keys: Seq<Seq<char>>, n: nat)
    requires
        n <= keys.len(),
    ensures
        forall|i: int|
            0 <= i < shared_keys(v, keys, n).len() ==> with_hash(
                v,
                #[trigger] shared_keys(v, keys, n)[i],
                v.len(),
            ).len() > 1,
    decreases n,
{
    if n > 0 {
        lemma_shared_keys_shared(v, keys, (n - 1) as nat);
        let prev = shared_keys(v, keys, (n - 1) as nat);
        let cur = shared_keys(v, keys, n);
        assert forall|i: int| 0 <= i < cur.len() implies with_hash(v, #[trigger] cur[i], v.len()).len() > 1 by {
            if i < prev.len() {
                assert(cur[i] == prev[i]);
            }
        }
    }
}

/// Number of extensions a report lists.
pub const TOP_EXTENSIONS: usize = 5;

/// What a report shows: each section is present exactly when it was asked for.
pub struct Report {
    pub stats: Option<ReportSummary>,
    /// The most wasteful duplicate groups, most wasted bytes first.
    pub duplicates: Option<Vec<DuplicateGroup>>,
    /// The largest entries, largest first.
    pub largest_files: Option<Vec<MapEntry>>,
    /// The most common extensions (at most five), most common first.
    pub top_extensions: Option<Vec<(String, usize)>>,
}

/// The `top_n` duplicate groups with the most wasted bytes, most first.
fn top_groups(entries: &Vec<MapEntry>, groups: &Vec<DuplicateGroup>, top_n: usize) -> (r: Vec<DuplicateGroup>)
    requires
        groups@.len() == duplicate_keys(entries_view(entries@)).len(),
        forall|i: int|
            0 <= i < groups@.len() ==> group_of(
                #[trigger] groups@[i],
                entries_view(entries@),
                duplicate_keys(entries_view(entries@))[i],
            ),
    ensures
        r@.len() == nat_min(top_n as nat, duplicate_keys(entries_view(entries@)).len()),
        forall|i: int| 0 <= i < r@.len() ==> is_duplicate_group(#[trigger] r@[i], entries_view(entries@)),
        forall|i: int, j: int|
            0 <= i < j < r@.len() ==> (#[trigger] r@[i]).wasted_bytes >= (
            #[trigger] r@[j]).wasted_bytes,
{
    let ghost v = entries_view(entries@);
    let ghost dk = duplicate_keys(v);
    let mut keys: Vec<u64> = Vec::new();
    let mut i: usize = 0;
    while i < groups.len()
        invariant
            i <= groups@.len(),
            keys@.len() == i,
            forall|k: int| 0 <= k < i ==> #[trigger] keys@[k] == groups@[k].wasted_bytes,
        decreases groups@.len() - i,
    {
        keys.push(groups[i].wasted_bytes);
        i = i + 1;
    }
    assert(keys@.len() == groups@.len());
    let idx = top_indices_by_key(&keys, top_n);
    let mut out: Vec<DuplicateGroup> = Vec::new();
    let mut t: usize = 0;
    while t < idx.len()
        invariant
            t <= idx@.len(),
            keys@.len() == groups@.len(),
            forall|k: int| 0 <= k < idx@.len() ==> (#[trigger] idx@[k]) < keys@.len(),
            forall|k: int| 0 <= k < keys@.len() ==> #[trigger] keys@[k] == groups@[k].wasted_bytes,
            out@.len() == t,
            forall|k: int|
                0 <= k < t ==> {
                    let g = groups@[idx@[k] as int];
                    &&& (#[trigger] out@[k]).hash@ == g.hash@
                    &&& out@[k].count == g.count
                    &&& out@[k].total_bytes == g.total_bytes
                    &&& out@[k].wasted_bytes == g.wasted_bytes
                    &&& out@[k].paths@.len() == g.paths@.len()
                    &&& forall|p: int| 0 <= p < g.paths@.len() ==> #[trigger] out@[k].paths@[p]@ == g.paths@[p]@
                },
        decreases idx@.len() - t,
    {
        out.push(groups[idx[t]].copied());
        t = t + 1;
    }
    proof {
        assert(keys@.len() == groups@.len());
        assert(groups@.len() == dk.len());
        assert(out@.len() == idx@.len());
        assert forall|a: int| 0 <= a < out@.len() implies exists|j: int|
            0 <= j < dk.len() && group_of(#[trigger] out@[a], v, dk[j]) by {
            let j = idx@[a] as int;
            assert(group_of(groups@[j], v, dk[j]));
            assert(group_of(out@[a], v, dk[j]));
        }
        assert forall|a: int, b: int| 0 <= a < b < out@.len() implies (#[trigger] out@[a]).wasted_bytes
            >= (#[trigger] out@[b]).wasted_bytes by {
            assert(keys@[idx@[a] as int] >= keys@[idx@[b] as int]);
        }
        assert(out@.len() == nat_min(top_n as nat, dk.len()));
    }
    out
}

/// Builds a report over a map's entries: the sections named by `includes`
/// (all of them when it is empty); `top_n` bounds the duplicate groups and the
/// largest entries listed.
pub fn build_report(entries: &Vec<MapEntry>, includes: &Vec<String>, top_n: usize) -> (r: Report)
    ensures
        r.stats is Some == requested_sections(includes@).stats,
        r.top_extensions is Some == requested_sections(includes@).stats,
        r.duplicates is Some == requested_sections(includes@).duplicates,
        r.largest_files is Some == requested_sections(includes@).largest,
        r.stats matches Some(st) ==> {
            &&& st.total_files == entries@.len()
            &&& st.total_size_bytes == nat_min(
                size_sum(entries_view(entries@), entries@.len()),
                u64::MAX as nat,
            )
            &&& st.duplicate_groups == duplicate_keys(entries_view(entries@)).len()
        },
        r.top_extensions matches Some(x) ==> {
            let v = entries_view(entries@);
            &&& x@.len() == nat_min(TOP_EXTENSIONS as nat, ext_keys(v, v.len()).len())
            &&& forall|i: int|
                0 <= i < x@.len() ==> ext_keys(v, v.len()).contains((#[trigger] x@[i]).0@)
                    && x@[i].1 == ext_count(v, x@[i].0@, v.len())
            &&& forall|i: int, j: int|
                0 <= i < j < x@.len() ==> (#[trigger] x@[i]).1 >= (#[trigger] x@[j]).1
        },
        r.duplicates matches Some(d) ==> {
            let v = entries_view(entries@);
            let dk = duplicate_keys(v);
            &&& d@.len() == nat_min(top_n as nat, dk.len())
            &&& forall|i: int| 0 <= i < d@.len() ==> is_duplicate_group(#[trigger] d@[i], v)
            &&& forall|i: int, j: int|
                0 <= i < j < d@.len() ==> (#[trigger] d@[i]).wasted_bytes >= (
                #[trigger] d@[j]).wasted_bytes
        },
        r.largest_files matches Some(l) ==> {
            &&& l@.len() == nat_min(top_n as nat, entries@.len())
            &&& forall|i: int| 0 <= i < l@.len() ==> is_entry_of(#[trigger] l@[i], entries@)
            &&& forall|i: int, j: int|
                0 <= i < j < l@.len() ==> (#[trigger] l@[i]).size >= (#[trigger] l@[j]).size
        },
{
    let sections = ReportSections::from_includes(includes);
    let ghost v = entries_view(entries@);
    let groups = duplicate_groups(entries);
    let ghost dk = duplicate_keys(v);
    proof {
        lemma_shared_keys_shared(v, hash_keys(v, v.len()), hash_keys(v, v.len()).len());
        assert forall|i: int| 0 <= i < groups@.len() implies (#[trigger] groups@[i]).count >= 1 by {
            assert(group_of(groups@[i], v, dk[i]));
            assert(with_hash(v, dk[i], v.len()).len() > 1);
        }
    }
    let stats = if sections.stats {
        proof {
            lemma_group_counts(entries, groups@);
        }
        Some(summarize(entries, &groups))
    } else {
        None
    };
    let top_extensions = if sections.stats {
        let counts = extension_counts(entries);
        let mut keys: Vec<u64> = Vec::new();
        let mut i: usize = 0;
        while i < counts.len()
            invariant
                i <= counts@.len(),
                keys@.len() == i,
                forall|k: int| 0 <= k < i ==> #[trigger] keys@[k] == counts@[k].1 as u64,
            decreases counts@.len() - i,
        {
            keys.push(counts[i].1 as u64);
            i = i + 1;
        }
        let idx = top_indices_by_key(&keys, TOP_EXTENSIONS);
        let mut out: Vec<(String, usize)> = Vec::new();
        let mut t: usize = 0;
        while t < idx.len()
            invariant
                t <= idx@.len(),
                idx@.len() <= keys@.len(),
                keys@.len() == counts@.len(),
                forall|k: int| 0 <= k < idx@.len() ==> (#[trigger] idx@[k]) < keys@.len(),
                forall|k: int| 0 <= k < keys@.len() ==> #[trigger] keys@[k] == counts@[k].1 as u64,
                out@.len() == t,
                forall|k: int|
                    0 <= k < t ==> (#[trigger] out@[k]).0@ == counts@[idx@[k] as int].0@ && out@[k].1
                        == counts@[idx@[k] as int].1,
            decreases idx@.len() - t,
        {
            let c = &counts[idx[t]];
            out.push((c.0.clone(), c.1));
            t = t + 1;
        }
        proof {
            let ks = ext_keys(v, v.len());
            assert forall|a: int| 0 <= a < out@.len() implies ks.contains((#[trigger] out@[a]).0@)
                && out@[a].1 == ext_count(v, out@[a].0@, v.len()) by {
                let j = idx@[a] as int;
                assert(counts@[j].0@ == ks[j]);
            }
            assert forall|a: int, b: int| 0 <= a < b < out@.len() implies (#[trigger] out@[a]).1 >= (
            #[trigger] out@[b]).1 by {
                assert(keys@[idx@[a] as int] >= keys@[idx@[b] as int]);
            }
        }
        Some(out)
    } else {
        None
    };
    let duplicates = if sections.duplicates {
        Some(top_groups(entries, &groups, top_n))
    } else {
        None
    };
    let largest_files = if sections.largest {
        let mut keys: Vec<u64> = Vec::new();
        let mut i: usize = 0;
        while i < entries.len()
            invariant
                i <= entries@.len(),
                keys@.len() == i,
                forall|k: int| 0 <= k < i ==> #[trigger] keys@[k] == entries@[k].size,
            decreases entries@.len() - i,
        {
            keys.push(entries[i].size);
            i = i + 1;
        }
        let idx = top_indices_by_key(&keys, top_n);
        let mut out: Vec<MapEntry> = Vec::new();
        let mut t: usize = 0;
        while t < idx.len()
            invariant
                t <= idx@.len(),
                keys@.len() == entries@.len(),
                forall|k: int| 0 <= k < idx@.len() ==> (#[trigger] idx@[k]) < keys@.len(),
                forall|k: int| 0 <= k < keys@.len() ==> #[trigger] keys@[k] == entries@[k].size,
                out@.len() == t,
                forall|k: int| 0 <= k < t ==> (#[trigger] out@[k])@ == entries@[idx@[k] as int]@,
            decreases idx@.len() - t,
        {
            out.push(entries[idx[t]].copied());
            t = t + 1;
        }
        proof {
            assert forall|a: int| 0 <= a < out@.len() implies is_entry_of(#[trigger] out@[a], entries@) by {
                let j = idx@[a] as int;
                assert(out@[a]@ == entries@[j]@);
            }
            assert forall|a: int, b: int| 0 <= a < b < out@.len() implies (#[trigger] out@[a]).size >= (
            #[trigger] out@[b]).size by {
                assert(keys@[idx@[a] as int] >= keys@[idx@[b] as int]);
            }
        }
        Some(out)
    } else {
        None
    };
    Report { stats, duplicates, largest_files, top_extensions }
}

/// Groups of a map have no more members than the map has entries, and there
/// are no more groups than entries.
proof fn lemma_group_counts(entries: &Vec<MapEntry>, groups: Seq<DuplicateGroup>)
    requires
        groups.len() == duplicate_keys(entries_view(entries@)).len(),
        forall|i: int|
            0 <= i < groups.len() ==> group_of(
                #[trigger] groups[i],
                entries_view(entries@),
                duplicate_keys(entries_view(entries@))[i],
            ),
    ensures
        forall|i: int| 0 <= i < groups.len() ==> (#[trigger] groups[i]).count <= entries@.len(),
        groups.len() <= entries@.len(),
{
    let v = entries_view(entries@);
    assert forall|i: int| 0 <= i < groups.len() implies (#[trigger] groups[i]).count <= entries@.len() by {
        lemma_with_hash_len(v, duplicate_keys(v)[i], v.len());
    }
    lemma_hash_keys_len(v, v.len());
    lemma_shared_keys_len(v, hash_keys(v, v.len()), hash_keys(v, v.len()).len());
}

proof fn lemma_with_hash_len(v: Seq<EntryView>, h: Seq<char>, n: nat)
    ensures
        with_hash(v, h, n).len() <= n,
    decreases n,
{
    if n > 0 {
        lemma_with_hash_len(v, h, (n - 1) as nat);
    }
}

proof fn lemma_hash_keys_len(v: Seq<EntryView>, n: nat)
    ensures
        hash_keys(v, n).len() <= n,
    decreases n,
{
    if n > 0 {
        lemma_hash_keys_len(v, (n - 1) as nat);
    }
}

proof fn lemma_shared_keys_len(v: Seq<EntryView>, keys: Seq<Seq<char>>, n: nat)
    ensures
        shared_keys(v, keys, n).len() <= n,
    decreases n,
{
    if n > 0 {
        lemma_shared_keys_len(v, keys, (n - 1) as nat);
    }
}

} // verus!
