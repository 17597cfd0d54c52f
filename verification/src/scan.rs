//! The decisions around a library scan: which file paths an explicit scan
//! reads, and how the scan's copy of the book storage merges back with the
//! changes the user made while it ran, and which collection a folder scan
//! feeds.

use std::collections::HashMap;

use vstd::prelude::*;

use crate::session::ScanTarget;

verus! {

broadcast use vstd::std_specs::hash::group_hash_axioms;

/// Where one book of the merged storage comes from: the scan's copy (by
/// index into it) or the database (by index into the database list).
#[derive(Clone, Copy, Debug, PartialEq, Eq, Structural)]
pub enum MergeSource {
    Worker(usize),
    Database(usize),
}

/// The last index below `n` at which `db` holds `id`, or -1.
pub open spec fn last_index_below(db: Seq<u128>, id: u128, n: nat) -> int
    decreases n,
{
    if n == 0 {
        -1
    } else if db[n - 1] == id {
        n - 1
    } else {
        last_index_below(db, id, (n - 1) as nat)
    }
}

/// The scan's books, in the scan's order, without the removed ones; a book
/// changed during the scan takes its (last) database copy.
pub open spec fn spec_worker_part(
    worker: Seq<u128>,
    db: Seq<u128>,
    removed: Seq<u128>,
    touched: Seq<u128>,
    n: nat,
) -> Seq<MergeSource>
    decreases n,
{
    if n == 0 {
        Seq::empty()
    } else {
        let rest = spec_worker_part(worker, db, removed, touched, (n - 1) as nat);
        let id = worker[n - 1];
        if removed.contains(id) {
            rest
        } else if touched.contains(id) && db.contains(id) {
            rest.push(MergeSource::Database(last_index_below(db, id, db.len()) as usize))
        } else {
            rest.push(MergeSource::Worker((n - 1) as usize))
        }
    }
}

/// The database books the scan does not know (added during the scan), in
/// database order, without the removed ones.
pub open spec fn spec_preserved_part(worker: Seq<u128>, db: Seq<u128>, removed: Seq<u128>, n: nat) -> Seq<
    MergeSource,
>
    decreases n,
{
    if n == 0 {
        Seq::empty()
    } else {
        let rest = spec_preserved_part(worker, db, removed, (n - 1) as nat);
        let id = db[n - 1];
        if !removed.contains(id) && !worker.contains(id) {
            rest.push(MergeSource::Database((n - 1) as usize))
        } else {
            rest
        }
    }
}

/// The landing merge: the scan's books (the master copy), then the books
/// added to the database while the scan ran.
pub open spec fn spec_merge_scan_storage(
    worker: Seq<u128>,
    db: Seq<u128>,
    removed: Seq<u128>,
    touched: Seq<u128>,
) -> Seq<MergeSource> {
    spec_worker_part(worker, db, removed, touched, worker.len()) + spec_preserved_part(
        worker,
        db,
        removed,
        db.len(),
    )
}

/// A lookup set of ids.
fn id_set(ids: &[u128]) -> (r: HashMap<u128, bool>)
    ensures
        forall|k: u128| r@.contains_key(k) <==> ids@.contains(k),
{
    let mut m: HashMap<u128, bool> = HashMap::new();
    let mut i: usize = 0;
    while i < ids.len()
        invariant
            i <= ids@.len(),
            forall|k: u128| m@.contains_key(k) <==> exists|j: int| 0 <= j < i && #[trigger] ids@[j] == k,
        decreases ids@.len() - i,
    {
        m.insert(ids[i], true);
        proof {
            assert forall|k: u128| m@.contains_key(k) <==> exists|j: int| 0 <= j < i + 1 && #[trigger] ids@[j] == k by {
                if k == ids@[i as int] {
                    assert(ids@[i as int] == k);
                }
            }
        }
        i = i + 1;
    }
    m
}

/// Plans the landing merge of a scan: the scan's copy of the storage is the
/// master (its file updates and new books), and what happened while it ran
/// stays on top: books removed meanwhile drop everywhere, books changed
/// meanwhile keep their database copy, and books added meanwhile stay.
/// Ids are the books' ids, in storage order.
pub fn merge_scan_storage(worker: &[u128], db_books: &[u128], removed: &[u128], touched: &[u128]) -> (r: Vec<
    MergeSource,
>)
    ensures
        r@ == spec_merge_scan_storage(worker@, db_books@, removed@, touched@),
{
    let worker_ids = id_set(worker);
    let removed_set = id_set(removed);
    let touched_set = id_set(touched);
    let ghost w = worker@;
    let ghost db = db_books@;
    let ghost rm = removed@;
    let ghost tc = touched@;
    let mut db_wins: HashMap<u128, usize> = HashMap::new();
    let mut preserved: Vec<MergeSource> = Vec::new();
    let mut j: usize = 0;
    while j < db_books.len()
        invariant
            db == db_books@,
            j <= db.len(),
            forall|k: u128| worker_ids@.contains_key(k) <==> w.contains(k),
            forall|k: u128| removed_set@.contains_key(k) <==> rm.contains(k),
            forall|k: u128| touched_set@.contains_key(k) <==> tc.contains(k),
            forall|k: u128|
                db_wins@.contains_key(k) <==> (last_index_below(db, k, j as nat) >= 0 && !rm.contains(k)
                    && w.contains(k) && tc.contains(k)),
            forall|k: u128| #[trigger]
                db_wins@.contains_key(k) ==> db_wins@[k] == last_index_below(db, k, j as nat),
            preserved@ == spec_preserved_part(w, db, rm, j as nat),
        decreases db.len() - j,
    {
        let id = db_books[j];
        let ghost old_wins = db_wins@;
        proof {
            lemma_last_index_step(db, id, j as nat);
        }
        if removed_set.contains_key(&id) {
        } else if worker_ids.contains_key(&id) {
            if touched_set.contains_key(&id) {
                db_wins.insert(id, j);
            }
        } else {
            preserved.push(MergeSource::Database(j));
        }
        proof {
            assert forall|k: u128| k != id implies last_index_below(db, k, (j + 1) as nat) == last_index_below(
                db,
                k,
                j as nat,
            ) by {}
            assert forall|k: u128| #[trigger] db_wins@.contains_key(k) implies db_wins@[k] == last_index_below(
                db,
                k,
                (j + 1) as nat,
            ) by {
                if k != id {
                    assert(old_wins.contains_key(k));
                } else if !rm.contains(id) && w.contains(id) && tc.contains(id) {
                    assert(db_wins@[id] == j);
                } else {
                    assert(!old_wins.contains_key(id));
                    assert(db_wins@ == old_wins);
                }
            }
        }
        j = j + 1;
    }
    let mut merged: Vec<MergeSource> = Vec::new();
    let mut i: usize = 0;
    while i < worker.len()
        invariant
            w == worker@,
            db == db_books@,
            i <= w.len(),
            forall|k: u128| removed_set@.contains_key(k) <==> rm.contains(k),
            forall|k: u128|
                db_wins@.contains_key(k) <==> (last_index_below(db, k, db.len()) >= 0 && !rm.contains(k)
                    && w.contains(k) && tc.contains(k)),
            forall|k: u128| #[trigger]
                db_wins@.contains_key(k) ==> db_wins@[k] == last_index_below(db, k, db.len()),
            merged@ == spec_worker_part(w, db, rm, tc, i as nat),
        decreases w.len() - i,
    {
        let id = worker[i];
        proof {
            assert(w.contains(id)) by {
                assert(w[i as int] == id);
            }
            lemma_last_index_contains(db, id, db.len());
        }
        if !removed_set.contains_key(&id) {
            match db_wins.get(&id) {
                Some(at) => {
                    merged.push(MergeSource::Database(*at));
                },
                None => {
                    merged.push(MergeSource::Worker(i));
                },
            }
        }
        i = i + 1;
    }
    let mut k: usize = 0;
    while k < preserved.len()
        invariant
            k <= preserved@.len(),
            merged@ == spec_worker_part(w, db, rm, tc, w.len()) + preserved@.take(k as int),
        decreases preserved@.len() - k,
    {
        merged.push(preserved[k]);
        proof {
            assert(preserved@.take(k + 1) =~= preserved@.take(k as int).push(preserved@[k as int]));
        }
        k = k + 1;
    }
    proof {
        assert(preserved@.take(preserved@.len() as int) =~= preserved@);
    }
    merged
}

proof fn lemma_last_index_step(db: Seq<u128>, id: u128, j: nat)
    requires
        j < db.len(),
        db[j as int] == id,
    ensures
        last_index_below(db, id, j + 1) == j,
{
}

/// `last_index_below` finds an occurrence exactly when there is one.
proof fn lemma_last_index_contains(db: Seq<u128>, id: u128, n: nat)
    requires
        n <= db.len(),
    ensures
        last_index_below(db, id, n) >= 0 <==> exists|j: int| 0 <= j < n && #[trigger] db[j] == id,
        last_index_below(db, id, n) < n,
        last_index_below(db, id, n) >= 0 ==> db[last_index_below(db, id, n)] == id,
    decreases n,
{
    if n > 0 {
        lemma_last_index_contains(db, id, (n - 1) as nat);
        if db[n - 1] == id {
            assert(db[n - 1] == id);
        }
    }
}

/// What the scan part of a merge holds: each entry stands for a scanned
/// book that was not removed (its database copy when it was changed during
/// the scan), and every such book has its entry.
proof fn lemma_worker_part(w: Seq<u128>, db: Seq<u128>, rm: Seq<u128>, tc: Seq<u128>, n: nat)
    requires
        n <= w.len(),
        w.len() <= usize::MAX,
        db.len() <= usize::MAX,
    ensures
        ({
            let part = spec_worker_part(w, db, rm, tc, n);
            &&& forall|k: int|
                0 <= k < part.len() ==> match #[trigger] part[k] {
                    MergeSource::Worker(i) => i < n && !rm.contains(w[i as int]) && !(tc.contains(w[i as int])
                        && db.contains(w[i as int])),
                    MergeSource::Database(j) => j < db.len() && !rm.contains(db[j as int]) && tc.contains(
                        db[j as int],
                    ) && w.contains(db[j as int]),
                }
            &&& forall|i: int|
                0 <= i < n && !rm.contains(#[trigger] w[i]) ==> part.contains(
                    if tc.contains(w[i]) && db.contains(w[i]) {
                        MergeSource::Database(last_index_below(db, w[i], db.len()) as usize)
                    } else {
                        MergeSource::Worker(i as usize)
                    },
                )
        }),
    decreases n,
{
    if n > 0 {
        lemma_worker_part(w, db, rm, tc, (n - 1) as nat);
        let rest = spec_worker_part(w, db, rm, tc, (n - 1) as nat);
        let part = spec_worker_part(w, db, rm, tc, n);
        let id = w[n - 1];
        lemma_last_index_contains(db, id, db.len());
        assert(w.contains(id)) by {
            assert(w[n - 1] == id);
        }
        if db.contains(id) {
            let j = choose|j: int| 0 <= j < db.len() && db[j] == id;
            assert(db[j] == id);
        }
        let e = if tc.contains(id) && db.contains(id) {
            MergeSource::Database(last_index_below(db, id, db.len()) as usize)
        } else {
            MergeSource::Worker((n - 1) as usize)
        };
        if rm.contains(id) {
            assert(part == rest);
        } else {
            assert(part == rest.push(e));
        }
        assert forall|k: int| 0 <= k < part.len() implies match #[trigger] part[k] {
            MergeSource::Worker(i) => i < n && !rm.contains(w[i as int]) && !(tc.contains(w[i as int])
                && db.contains(w[i as int])),
            MergeSource::Database(j) => j < db.len() && !rm.contains(db[j as int]) && tc.contains(db[j as int])
                && w.contains(db[j as int]),
        } by {
            if k < rest.len() {
                assert(part[k] == rest[k]);
            }
        }
        assert forall|i: int| 0 <= i < n && !rm.contains(#[trigger] w[i]) implies part.contains(
            if tc.contains(w[i]) && db.contains(w[i]) {
                MergeSource::Database(last_index_below(db, w[i], db.len()) as usize)
            } else {
                MergeSource::Worker(i as usize)
            },
        ) by {
            if i < n - 1 {
                let ei = if tc.contains(w[i]) && db.contains(w[i]) {
                    MergeSource::Database(last_index_below(db, w[i], db.len()) as usize)
                } else {
                    MergeSource::Worker(i as usize)
                };
                assert(rest.contains(ei));
                let k = choose|k: int| 0 <= k < rest.len() && rest[k] == ei;
                assert(part[k] == ei);
            } else {
                assert(part[part.len() - 1] == e);
            }
        }
    }
}

/// What the added-books part of a merge holds: one entry per database book
/// the scan did not see and that was not removed, and nothing else.
proof fn lemma_preserved_part(w: Seq<u128>, db: Seq<u128>, rm: Seq<u128>, n: nat)
    requires
        n <= db.len(),
        db.len() <= usize::MAX,
    ensures
        ({
            let part = spec_preserved_part(w, db, rm, n);
            &&& forall|k: int|
                0 <= k < part.len() ==> match #[trigger] part[k] {
                    MergeSource::Worker(_) => false,
                    MergeSource::Database(j) => j < n && !rm.contains(db[j as int]) && !w.contains(db[j as int]),
                }
            &&& forall|j: int|
                0 <= j < n && !rm.contains(#[trigger] db[j]) && !w.contains(db[j]) ==> part.contains(
                    MergeSource::Database(j as usize),
                )
        }),
    decreases n,
{
    if n > 0 {
        lemma_preserved_part(w, db, rm, (n - 1) as nat);
        let rest = spec_preserved_part(w, db, rm, (n - 1) as nat);
        let part = spec_preserved_part(w, db, rm, n);
        let id = db[n - 1];
        let fresh = !rm.contains(id) && !w.contains(id);
        if fresh {
            assert(part == rest.push(MergeSource::Database((n - 1) as usize)));
        } else {
            assert(part == rest);
        }
        assert forall|k: int| 0 <= k < part.len() implies match #[trigger] part[k] {
            MergeSource::Worker(_) => false,
            MergeSource::Database(j) => j < n && !rm.contains(db[j as int]) && !w.contains(db[j as int]),
        } by {
            if k < rest.len() {
                assert(part[k] == rest[k]);
            }
        }
        assert forall|j: int|
            0 <= j < n && !rm.contains(#[trigger] db[j]) && !w.contains(db[j]) implies part.contains(
            MergeSource::Database(j as usize),
        ) by {
            if j < n - 1 {
                assert(rest.contains(MergeSource::Database(j as usize)));
                let k = choose|k: int| 0 <= k < rest.len() && rest[k] == MergeSource::Database(j as usize);
                assert(part[k] == MergeSource::Database(j as usize));
            } else {
                assert(part[part.len() - 1] == MergeSource::Database(j as usize));
            }
        }
    }
}

/// The landing merge keeps the user's changes made during a scan:
/// a removed book appears nowhere; a book added during the scan stays; a
/// book changed during the scan keeps its database copy; an unchanged
/// scanned book comes from the scan; and a book the scan also found is
/// never added a second time from the database.
pub proof fn law_merge_keeps_changes_made_during_the_scan(
    worker: Seq<u128>,
    db: Seq<u128>,
    removed: Seq<u128>,
    touched: Seq<u128>,
)
    requires
        worker.len() <= usize::MAX,
        db.len() <= usize::MAX,
    ensures
        ({
            let merged = spec_merge_scan_storage(worker, db, removed, touched);
            let scanned = spec_worker_part(worker, db, removed, touched, worker.len());
            &&& forall|k: int|
                0 <= k < merged.len() ==> match #[trigger] merged[k] {
                    MergeSource::Worker(i) => i < worker.len() && !removed.contains(worker[i as int]),
                    MergeSource::Database(j) => j < db.len() && !removed.contains(db[j as int]),
                }
            &&& forall|j: int|
                0 <= j < db.len() && !removed.contains(#[trigger] db[j]) && !worker.contains(db[j])
                    ==> merged.contains(MergeSource::Database(j as usize))
            &&& forall|i: int|
                0 <= i < worker.len() && !removed.contains(#[trigger] worker[i]) && touched.contains(worker[i])
                    && db.contains(worker[i]) ==> merged.contains(
                    MergeSource::Database(last_index_below(db, worker[i], db.len()) as usize),
                ) && db[last_index_below(db, worker[i], db.len())] == worker[i]
            &&& forall|i: int|
                0 <= i < worker.len() && !removed.contains(#[trigger] worker[i]) && !(touched.contains(worker[i])
                    && db.contains(worker[i])) ==> merged.contains(MergeSource::Worker(i as usize))
            &&& forall|k: int|
                0 <= k < merged.len() && (#[trigger] merged[k] matches MergeSource::Database(j) && worker.contains(
                    db[j as int],
                )) ==> k < scanned.len()
        }),
{
    let merged = spec_merge_scan_storage(worker, db, removed, touched);
    let scanned = spec_worker_part(worker, db, removed, touched, worker.len());
    let added = spec_preserved_part(worker, db, removed, db.len());
    lemma_worker_part(worker, db, removed, touched, worker.len());
    lemma_preserved_part(worker, db, removed, db.len());
    assert forall|k: int| 0 <= k < merged.len() implies match #[trigger] merged[k] {
        MergeSource::Worker(i) => i < worker.len() && !removed.contains(worker[i as int]),
        MergeSource::Database(j) => j < db.len() && !removed.contains(db[j as int]),
    } by {
        if k < scanned.len() {
            assert(merged[k] == scanned[k]);
        } else {
            assert(merged[k] == added[k - scanned.len()]);
        }
    }
    assert forall|j: int|
        0 <= j < db.len() && !removed.contains(#[trigger] db[j]) && !worker.contains(db[j]) implies merged.contains(
        MergeSource::Database(j as usize),
    ) by {
        assert(added.contains(MergeSource::Database(j as usize)));
        let k = choose|k: int| 0 <= k < added.len() && added[k] == MergeSource::Database(j as usize);
        assert(merged[scanned.len() + k] == added[k]);
    }
    assert forall|i: int|
        0 <= i < worker.len() && !removed.contains(#[trigger] worker[i]) && touched.contains(worker[i])
            && db.contains(worker[i]) implies merged.contains(
        MergeSource::Database(last_index_below(db, worker[i], db.len()) as usize),
    ) && db[last_index_below(db, worker[i], db.len())] == worker[i] by {
        let e = MergeSource::Database(last_index_below(db, worker[i], db.len()) as usize);
        assert(scanned.contains(e));
        let k = choose|k: int| 0 <= k < scanned.len() && scanned[k] == e;
        assert(merged[k] == scanned[k]);
        lemma_last_index_contains(db, worker[i], db.len());
        let j = choose|j: int| 0 <= j < db.len() && db[j] == worker[i];
        assert(db[j] == worker[i]);
    }
    assert forall|i: int|
        0 <= i < worker.len() && !removed.contains(#[trigger] worker[i]) && !(touched.contains(worker[i])
            && db.contains(worker[i])) implies merged.contains(MergeSource::Worker(i as usize)) by {
        let e = MergeSource::Worker(i as usize);
        assert(scanned.contains(e));
        let k = choose|k: int| 0 <= k < scanned.len() && scanned[k] == e;
        assert(merged[k] == scanned[k]);
    }
    assert forall|k: int|
        0 <= k < merged.len() && (#[trigger] merged[k] matches MergeSource::Database(j) && worker.contains(
            db[j as int],
        )) implies k < scanned.len() by {
        if k >= scanned.len() {
            assert(merged[k] == added[k - scanned.len()]);
        }
    }
}

/// A path separator: both the slash and the backslash count.
pub open spec fn is_separator(c: char) -> bool {
    c == '/' || c == '\\'
}

/// A character's code with ASCII capitals folded to lower case.
pub open spec fn folded_code(c: char) -> u32 {
    if 'A' <= c && c <= 'Z' {
        (c as u32 + 32) as u32
    } else {
        c as u32
    }
}

/// The components finished within the first `n` characters, and the one
/// still being read.
pub open spec fn split_state(s: Seq<char>, n: nat) -> (Seq<Seq<u32>>, Seq<u32>)
    decreases n,
{
    if n == 0 {
        (Seq::empty(), Seq::empty())
    } else {
        let (done, cur) = split_state(s, (n - 1) as nat);
        let c = s[n - 1];
        if is_separator(c) {
            if cur.len() > 0 {
                (done.push(cur), Seq::empty())
            } else {
                (done, Seq::empty())
            }
        } else {
            (done, cur.push(folded_code(c)))
        }
    }
}

/// A path's non-empty components between separators, ASCII case folded.
pub open spec fn spec_path_components(s: Seq<char>) -> Seq<Seq<u32>> {
    let (done, cur) = split_state(s, s.len());
    if cur.len() > 0 {
        done.push(cur)
    } else {
        done
    }
}

/// Which collection a folder scan of `path` feeds: the Incoming one when
/// the path names one of the incoming roots (component by component,
/// ignoring ASCII case and trailing separators) or lies inside the
/// incoming area; else the library.
pub open spec fn spec_scan_target_for_path(path: Seq<char>, incoming_roots: Seq<Seq<char>>, inside_incoming: bool) -> ScanTarget {
    let pc = spec_path_components(path);
    let is_root = pc.len() > 0 && exists|i: int|
        0 <= i < incoming_roots.len() && spec_path_components(#[trigger] incoming_roots[i]) == pc;
    if is_root || inside_incoming {
        ScanTarget::Incoming
    } else {
        ScanTarget::Library
    }
}

/// The views of a list of components.
pub open spec fn component_views(v: Seq<Vec<u32>>) -> Seq<Seq<u32>> {
    v.map_values(|c: Vec<u32>| c@)
}

fn path_components(s: &str) -> (r: Vec<Vec<u32>>)
    ensures
        component_views(r@) == spec_path_components(s@),
{
    let n = s.unicode_len();
    let mut done: Vec<Vec<u32>> = Vec::new();
    let mut cur: Vec<u32> = Vec::new();
    let mut i: usize = 0;
    while i < n
        invariant
            n == s@.len(),
            i <= n,
            (component_views(done@), cur@) == split_state(s@, i as nat),
        decreases n - i,
    {
        let c = s.get_char(i);
        let ghost before = component_views(done@);
        if c == '/' || c == '\\' {
            if cur.len() > 0 {
                let ghost cv = cur@;
                done.push(cur);
                assert(component_views(done@) =~= before.push(cv));
                cur = Vec::new();
            }
        } else {
            let code: u32 = if 'A' <= c && c <= 'Z' {
                c as u32 + 32
            } else {
                c as u32
            };
            cur.push(code);
        }
        i = i + 1;
    }
    if cur.len() > 0 {
        let ghost before = component_views(done@);
        let ghost cv = cur@;
        done.push(cur);
        assert(component_views(done@) =~= before.push(cv));
    }
    done
}

fn same_codes(a: &Vec<u32>, b: &Vec<u32>) -> (r: bool)
    ensures
        r == (a@ == b@),
{
    if a.len() != b.len() {
        return false;
    }
    let mut i: usize = 0;
    while i < a.len()
        invariant
            a@.len() == b@.len(),
            i <= a@.len(),
            forall|j: int| 0 <= j < i ==> a@[j] == b@[j],
        decreases a@.len() - i,
    {
        if a[i] != b[i] {
            return false;
        }
        i = i + 1;
    }
    assert(a@ =~= b@);
    true
}

fn same_components(a: &Vec<Vec<u32>>, b: &Vec<Vec<u32>>) -> (r: bool)
    ensures
        r == (component_views(a@) == component_views(b@)),
{
    if a.len() != b.len() {
        assert(component_views(a@).len() != component_views(b@).len());
        return false;
    }
    let mut i: usize = 0;
    while i < a.len()
        invariant
            a@.len() == b@.len(),
            i <= a@.len(),
            forall|j: int| 0 <= j < i ==> component_views(a@)[j] == component_views(b@)[j],
        decreases a@.len() - i,
    {
        if !same_codes(&a[i], &b[i]) {
            assert(component_views(a@)[i as int] != component_views(b@)[i as int]);
            return false;
        }
        i = i + 1;
    }
    assert(component_views(a@) =~= component_views(b@));
    true
}

/// Which collection a folder scan of `path` feeds. `incoming_roots` are
/// the configured incoming folders; `inside_incoming` is the incoming
/// configuration's own verdict that the path lies inside its area.
pub fn scan_target_for_path(path: &str, incoming_roots: &[String], inside_incoming: bool) -> (r: ScanTarget)
    ensures
        r == spec_scan_target_for_path(path@, incoming_roots@.map_values(|s: String| s@), inside_incoming),
{
    let ghost roots = incoming_roots@.map_values(|s: String| s@);
    let pc = path_components(path);
    let mut is_root = false;
    if pc.len() > 0 {
        let mut i: usize = 0;
        while i < incoming_roots.len()
            invariant
                roots == incoming_roots@.map_values(|s: String| s@),
                i <= incoming_roots@.len(),
                !is_root ==> forall|j: int| 0 <= j < i ==> spec_path_components(#[trigger] roots[j]) != component_views(pc@),
                is_root ==> exists|j: int| 0 <= j < roots.len() && spec_path_components(#[trigger] roots[j]) == component_views(pc@),
            decreases incoming_roots@.len() - i,
        {
            let rc = path_components(incoming_roots[i].as_str());
            if same_components(&rc, &pc) {
                assert(spec_path_components(roots[i as int]) == component_views(pc@));
                is_root = true;
            }
            i = i + 1;
        }
    }
    if is_root || inside_incoming {
        ScanTarget::Incoming
    } else {
        ScanTarget::Library
    }
}

/// The distinct non-empty paths, in first-seen order.
pub open spec fn spec_distinct_paths(paths: Seq<Seq<char>>) -> Seq<Seq<char>>
    decreases paths.len(),
{
    if paths.len() == 0 {
        Seq::empty()
    } else {
        let rest = spec_distinct_paths(paths.drop_last());
        let p = paths.last();
        if p.len() == 0 || rest.contains(p) {
            rest
        } else {
            rest.push(p)
        }
    }
}

/// The paths an explicit scan reads: none is empty, none is read twice,
/// every non-empty listed path is read, and nothing unlisted is.
pub proof fn law_distinct_paths_read_each_file_once(paths: Seq<Seq<char>>)
    ensures
        ({
            let r = spec_distinct_paths(paths);
            &&& forall|k: int| 0 <= k < r.len() ==> (#[trigger] r[k]).len() > 0 && paths.contains(r[k])
            &&& forall|a: int, b: int| 0 <= a < b < r.len() ==> r[a] != r[b]
            &&& forall|i: int| 0 <= i < paths.len() && (#[trigger] paths[i]).len() > 0 ==> r.contains(paths[i])
        }),
    decreases paths.len(),
{
    if paths.len() > 0 {
        let init = paths.drop_last();
        law_distinct_paths_read_each_file_once(init);
        let rest = spec_distinct_paths(init);
        let r = spec_distinct_paths(paths);
        let p = paths.last();
        if p.len() == 0 || rest.contains(p) {
            assert(r == rest);
        } else {
            assert(r == rest.push(p));
        }
        assert forall|k: int| 0 <= k < r.len() implies (#[trigger] r[k]).len() > 0 && paths.contains(r[k]) by {
            if k < rest.len() {
                assert(r[k] == rest[k]);
                let i = choose|i: int| 0 <= i < init.len() && init[i] == rest[k];
                assert(paths[i] == init[i]);
            } else {
                assert(paths[paths.len() - 1] == p);
            }
        }
        assert forall|a: int, b: int| 0 <= a < b < r.len() implies r[a] != r[b] by {
            if b < rest.len() {
                assert(r[a] == rest[a] && r[b] == rest[b]);
            } else {
                assert(r[a] == rest[a]);
            }
        }
        assert forall|i: int| 0 <= i < paths.len() && (#[trigger] paths[i]).len() > 0 implies r.contains(
            paths[i],
        ) by {
            if i < paths.len() - 1 {
                assert(init[i] == paths[i]);
                assert(rest.contains(init[i]));
                let k = choose|k: int| 0 <= k < rest.len() && rest[k] == init[i];
                assert(r[k] == rest[k]);
            } else if rest.contains(p) {
            } else {
                assert(r[r.len() - 1] == p);
            }
        }
    }
}

/// Whether `out` already holds `path`.
fn holds_path(out: &Vec<String>, path: &String) -> (r: bool)
    ensures
        r == out@.map_values(|s: String| s@).contains(path@),
{
    let ghost views = out@.map_values(|s: String| s@);
    let mut i: usize = 0;
    while i < out.len()
        invariant
            views == out@.map_values(|s: String| s@),
            i <= out@.len(),
            forall|j: int| 0 <= j < i ==> views[j] != path@,
        decreases out@.len() - i,
    {
        if out[i] == *path {
            assert(views[i as int] == path@);
            return true;
        }
        i = i + 1;
    }
    false
}

/// The distinct non-empty paths, in first-seen order: a book without a file
/// has nothing to scan, and a file listed twice is read once.
pub fn distinct_paths(paths: Vec<String>) -> (r: Vec<String>)
    ensures
        r@.map_values(|s: String| s@) == spec_distinct_paths(paths@.map_values(|s: String| s@)),
{
    let ghost views = paths@.map_values(|s: String| s@);
    let mut out: Vec<String> = Vec::new();
    let mut i: usize = 0;
    while i < paths.len()
        invariant
            views == paths@.map_values(|s: String| s@),
            i <= paths@.len(),
            out@.map_values(|s: String| s@) == spec_distinct_paths(views.take(i as int)),
        decreases paths@.len() - i,
    {
        let path = &paths[i];
        proof {
            assert(views.take(i + 1).drop_last() =~= views.take(i as int));
            assert(views.take(i + 1).last() == path@);
        }
        let empty = path.as_str().unicode_len() == 0;
        if !empty && !holds_path(&out, path) {
            let ghost before = out@.map_values(|s: String| s@);
            out.push(path.clone());
            assert(out@.map_values(|s: String| s@) =~= before.push(path@));
        }
        i = i + 1;
    }
    assert(views.take(paths@.len() as int) =~= views);
    out
}

} // verus!
