//! The navigator's tree of comic lists and the drag-and-drop move inside
//! it. The tree is held as its rows in display order (a depth-first walk),
//! each row with its id, its kind and its depth; a row's subtree is the
//! run of deeper rows right after it.

use std::collections::HashMap;

use vstd::prelude::*;

verus! {

broadcast use vstd::std_specs::hash::group_hash_axioms;

/// What a row of the list tree is: the Library root, a folder (the only
/// kind with children), or a list.
#[derive(Clone, Copy, Debug, PartialEq, Eq, Structural)]
pub enum ListKind {
    Library,
    Folder,
    List,
}

/// One row of the tree: the item's id, its kind and its depth (zero for
/// the top level).
#[derive(Clone, Copy, Debug, PartialEq, Eq, Structural)]
pub struct ListRow {
    pub id: u128,
    pub kind: ListKind,
    pub depth: usize,
}

/// Where a dragged navigator row lands: on a folder (as its last child),
/// before a row (in that row's container), or on empty space (at the end
/// of the top level).
#[derive(Clone, Copy, Debug, PartialEq, Eq, Structural)]
pub enum ListDrop {
    IntoFolder(u128),
    BeforeItem(u128),
    RootEnd,
}

/// `b` may follow `a` in the walk: at most one level deeper, and one level
/// deeper only below a folder.
pub open spec fn may_follow(a: ListRow, b: ListRow) -> bool {
    &&& b.depth <= a.depth + 1
    &&& b.depth == a.depth + 1 ==> a.kind == ListKind::Folder
}

/// Row `j` may follow row `j - 1`.
pub open spec fn step_ok(rows: Seq<ListRow>, j: int) -> bool {
    may_follow(rows[j - 1], rows[j])
}

/// The rows are the depth-first walk of a tree: the walk starts at the
/// top level and every row may follow the one before it.
pub open spec fn rows_wf(rows: Seq<ListRow>) -> bool {
    &&& rows.len() > 0 ==> rows[0].depth == 0
    &&& forall|j: int| 0 < j < rows.len() ==> #[trigger] step_ok(rows, j)
}

/// No id occurs twice.
pub open spec fn ids_unique(rows: Seq<ListRow>) -> bool {
    forall|a: int, b: int| 0 <= a < b < rows.len() ==> rows[a].id != rows[b].id
}

/// Some row has the id.
pub open spec fn has_id(rows: Seq<ListRow>, id: u128) -> bool {
    exists|k: int| 0 <= k < rows.len() && #[trigger] rows[k].id == id
}

/// The row with the id (meaningful when there is one).
pub open spec fn position(rows: Seq<ListRow>, id: u128) -> int {
    choose|k: int| 0 <= k < rows.len() && #[trigger] rows[k].id == id
}

/// The end of the run of rows deeper than `depth`, starting at `j`.
pub open spec fn run_end(rows: Seq<ListRow>, depth: int, j: int) -> int
    decreases rows.len() - j,
{
    if j >= rows.len() || j < 0 {
        rows.len() as int
    } else if rows[j].depth <= depth {
        j
    } else {
        run_end(rows, depth, j + 1)
    }
}

/// The end of row `i`'s subtree: the first later row no deeper than it.
pub open spec fn subtree_end(rows: Seq<ListRow>, i: int) -> int {
    run_end(rows, rows[i].depth as int, i + 1)
}

/// The rows moved from depth `from` to depth `to`.
pub open spec fn shifted(seg: Seq<ListRow>, from: int, to: int) -> Seq<ListRow> {
    seg.map_values(|r: ListRow| ListRow { depth: (r.depth - from + to) as usize, ..r })
}

/// A row's index once the rows `[s, e)` are cut out.
pub open spec fn after_cut(k: int, s: int, e: int) -> int {
    if k < s {
        k
    } else {
        k - (e - s)
    }
}

/// The rows with `m` put in at index `p`.
pub open spec fn spliced(rest: Seq<ListRow>, p: int, m: Seq<ListRow>) -> Seq<ListRow> {
    rest.subrange(0, p) + m + rest.subrange(p, rest.len() as int)
}

/// The tree after a drag-and-drop of the item `id`, or `None` when the
/// move is refused: the item must exist and not be the Library root; a
/// drop on the item itself or inside its own subtree is refused; a drop
/// into something that is not a folder, or before a row that does not
/// exist, is refused. The item moves with its whole subtree: to the end of
/// the top level, as the last child of the folder, or right before the
/// target row in the target's container (after it when the target is the
/// Library root, which stays first).
pub open spec fn spec_list_move(rows: Seq<ListRow>, id: u128, drop: ListDrop) -> Option<Seq<ListRow>> {
    let s = position(rows, id);
    if !has_id(rows, id) || rows[s].kind == ListKind::Library {
        None
    } else {
        let e = subtree_end(rows, s);
        let d = rows[s].depth as int;
        let seg = rows.subrange(s, e);
        let rest = rows.subrange(0, s) + rows.subrange(e, rows.len() as int);
        match drop {
            ListDrop::RootEnd => Some(rest + shifted(seg, d, 0)),
            ListDrop::IntoFolder(f) => {
                let fi = position(rows, f);
                if !has_id(rows, f) || (s <= fi < e) || rows[fi].kind != ListKind::Folder {
                    None
                } else {
                    let ri = after_cut(fi, s, e);
                    let p = subtree_end(rest, ri);
                    Some(spliced(rest, p, shifted(seg, d, rest[ri].depth + 1)))
                }
            },
            ListDrop::BeforeItem(t) => {
                let ti = position(rows, t);
                if !has_id(rows, t) || (s <= ti < e) {
                    None
                } else {
                    let ri = after_cut(ti, s, e);
                    let p = if rest[ri].kind == ListKind::Library {
                        ri + 1
                    } else {
                        ri
                    };
                    Some(spliced(rest, p, shifted(seg, d, rest[ri].depth as int)))
                }
            },
        }
    }
}

/// Whether the id is the Library root's.
pub open spec fn spec_is_library_list(rows: Seq<ListRow>, id: u128) -> bool {
    has_id(rows, id) && rows[position(rows, id)].kind == ListKind::Library
}

/// The folders, in walk order, each with its level.
pub open spec fn spec_list_folders(rows: Seq<ListRow>) -> Seq<(u128, usize)>
    decreases rows.len(),
{
    if rows.len() == 0 {
        Seq::empty()
    } else {
        let rest = spec_list_folders(rows.drop_last());
        let r = rows.last();
        if r.kind == ListKind::Folder {
            rest.push((r.id, r.depth))
        } else {
            rest
        }
    }
}

/// The tree without the item `id` and its subtree; unchanged when there is
/// no such item or it is the Library root.
pub open spec fn spec_remove_list(rows: Seq<ListRow>, id: u128) -> Seq<ListRow> {
    let s = position(rows, id);
    if !has_id(rows, id) || rows[s].kind == ListKind::Library {
        rows
    } else {
        rows.subrange(0, s) + rows.subrange(subtree_end(rows, s), rows.len() as int)
    }
}

/// The tree with a new leaf `item`: as the first child of the folder
/// `after`, right after the row `after` (and its subtree) in its container,
/// or at the end of the top level when nothing is given; `None` when
/// `after` is not in the tree or the item's id already is.
pub open spec fn spec_insert_list_item(rows: Seq<ListRow>, after: Option<u128>, item: ListRow) -> Option<
    Seq<ListRow>,
> {
    if has_id(rows, item.id) {
        None
    } else {
        match after {
            None => Some(rows.push(ListRow { depth: 0, ..item })),
            Some(a) => {
                let s = position(rows, a);
                if !has_id(rows, a) {
                    None
                } else if rows[s].kind == ListKind::Folder {
                    Some(spliced(rows, s + 1, seq![ListRow { depth: (rows[s].depth + 1) as usize, ..item }]))
                } else {
                    Some(spliced(rows, subtree_end(rows, s), seq![ListRow { depth: rows[s].depth, ..item }]))
                }
            },
        }
    }
}

proof fn lemma_run_end(rows: Seq<ListRow>, depth: int, j: int)
    requires
        0 <= j <= rows.len(),
    ensures
        j <= run_end(rows, depth, j) <= rows.len(),
        forall|k: int| j <= k < run_end(rows, depth, j) ==> #[trigger] rows[k].depth > depth,
        run_end(rows, depth, j) < rows.len() ==> rows[run_end(rows, depth, j)].depth <= depth,
    decreases rows.len() - j,
{
    if j < rows.len() && rows[j].depth > depth {
        lemma_run_end(rows, depth, j + 1);
    }
}

/// A row lies no deeper than its index.
proof fn lemma_depth_bound(rows: Seq<ListRow>, i: int)
    requires
        rows_wf(rows),
        0 <= i < rows.len(),
    ensures
        rows[i].depth <= i,
    decreases i,
{
    if i > 0 {
        lemma_depth_bound(rows, i - 1);
        assert(step_ok(rows, i));
    }
}

/// Inside a subtree, rows lie deeper than its root, and at most one level
/// deeper per row.
proof fn lemma_subtree_depths(rows: Seq<ListRow>, s: int, k: int)
    requires
        rows_wf(rows),
        0 <= s < rows.len(),
        s < k < subtree_end(rows, s),
    ensures
        rows[k].depth > rows[s].depth,
        rows[k].depth - rows[s].depth <= k - s,
    decreases k - s,
{
    lemma_run_end(rows, rows[s].depth as int, s + 1);
    assert(step_ok(rows, k));
    if k > s + 1 {
        lemma_subtree_depths(rows, s, k - 1);
    }
}

/// Cutting a subtree out leaves the walk of a tree.
proof fn lemma_cut_wf(rows: Seq<ListRow>, s: int)
    requires
        rows_wf(rows),
        0 <= s < rows.len(),
    ensures
        rows_wf(rows.subrange(0, s) + rows.subrange(subtree_end(rows, s), rows.len() as int)),
{
    let e = subtree_end(rows, s);
    lemma_run_end(rows, rows[s].depth as int, s + 1);
    let rest = rows.subrange(0, s) + rows.subrange(e, rows.len() as int);
    assert forall|j: int| 0 < j < rest.len() implies #[trigger] step_ok(rest, j) by {
        if j < s {
            assert(step_ok(rows, j));
        } else if j == s {
            // The row after the subtree is no deeper than its root.
            assert(rest[j] == rows[e]);
            assert(rest[j - 1] == rows[s - 1]);
            assert(step_ok(rows, s));
        } else {
            assert(rest[j] == rows[j + (e - s)]);
            assert(rest[j - 1] == rows[j - 1 + (e - s)]);
            assert(step_ok(rows, j + (e - s)));
        }
    }
    if rest.len() > 0 && s == 0 {
        assert(rest[0] == rows[e]);
    }
}

/// Putting a run of rows into the walk keeps it a tree's walk when the
/// seams fit.
proof fn lemma_splice_wf(rest: Seq<ListRow>, p: int, m: Seq<ListRow>)
    requires
        rows_wf(rest),
        0 <= p <= rest.len(),
        m.len() > 0,
        forall|j: int| 0 < j < m.len() ==> #[trigger] step_ok(m, j),
        p == 0 ==> m[0].depth == 0,
        p > 0 ==> may_follow(rest[p - 1], m[0]),
        p < rest.len() ==> may_follow(m[m.len() - 1], rest[p]),
    ensures
        rows_wf(spliced(rest, p, m)),
{
    let r = spliced(rest, p, m);
    let n = m.len() as int;
    assert forall|j: int| 0 < j < r.len() implies #[trigger] step_ok(r, j) by {
        if j < p {
            assert(r[j] == rest[j] && r[j - 1] == rest[j - 1]);
            assert(step_ok(rest, j));
        } else if j == p {
            assert(r[j] == m[0] && r[j - 1] == rest[p - 1]);
        } else if j < p + n {
            assert(r[j] == m[j - p] && r[j - 1] == m[j - p - 1]);
            assert(step_ok(m, j - p));
        } else if j == p + n {
            assert(r[j] == rest[p] && r[j - 1] == m[n - 1]);
        } else {
            assert(r[j] == rest[j - n] && r[j - 1] == rest[j - n - 1]);
            assert(step_ok(rest, j - n));
        }
    }
    if r.len() > 0 {
        if p == 0 {
            assert(r[0] == m[0]);
        } else {
            assert(r[0] == rest[0]);
        }
    }
}

/// A subtree moved to depth `base` keeps its ids, kinds and shape.
proof fn lemma_shifted_subtree(rows: Seq<ListRow>, s: int, base: int)
    requires
        rows_wf(rows),
        0 <= s < rows.len(),
        0 <= base,
        base + subtree_end(rows, s) - s - 1 <= usize::MAX,
    ensures
        ({
            let e = subtree_end(rows, s);
            let d = rows[s].depth as int;
            let m = shifted(rows.subrange(s, e), d, base);
            &&& s < e <= rows.len()
            &&& m.len() == e - s
            &&& forall|j: int|
                0 <= j < m.len() ==> {
                    &&& (#[trigger] m[j]).id == rows[s + j].id
                    &&& m[j].kind == rows[s + j].kind
                    &&& m[j].depth == rows[s + j].depth - d + base
                    &&& m[j].depth >= base
                }
            &&& m[0].depth == base
            &&& forall|j: int| 0 < j < m.len() ==> #[trigger] step_ok(m, j)
        }),
{
    let e = subtree_end(rows, s);
    let d = rows[s].depth as int;
    let seg = rows.subrange(s, e);
    let m = shifted(seg, d, base);
    lemma_run_end(rows, d, s + 1);
    assert forall|j: int| 0 <= j < m.len() implies {
        &&& (#[trigger] m[j]).id == rows[s + j].id
        &&& m[j].kind == rows[s + j].kind
        &&& m[j].depth == rows[s + j].depth - d + base
        &&& m[j].depth >= base
    } by {
        if j > 0 {
            lemma_subtree_depths(rows, s, s + j);
        }
        assert(seg[j] == rows[s + j]);
    }
    assert forall|j: int| 0 < j < m.len() implies #[trigger] step_ok(m, j) by {
        assert(step_ok(rows, s + j));
        assert(m[j].depth == rows[s + j].depth - d + base);
        assert(m[j - 1].depth == rows[s + j - 1].depth - d + base);
        assert(m[j - 1].kind == rows[s + j - 1].kind);
    }
}

/// The index in `rows` that row `k` of the spliced rows comes from.
spec fn origin(k: int, s: int, e: int, p: int) -> int {
    if k < p {
        after_cut_inverse(k, s, e)
    } else if k < p + (e - s) {
        s + (k - p)
    } else {
        after_cut_inverse(k - (e - s), s, e)
    }
}

spec fn after_cut_inverse(k: int, s: int, e: int) -> int {
    if k < s {
        k
    } else {
        k + (e - s)
    }
}

/// Moving a subtree elsewhere neither loses nor duplicates an id.
proof fn lemma_splice_ids(rows: Seq<ListRow>, s: int, e: int, p: int, m: Seq<ListRow>)
    requires
        0 <= s < e <= rows.len(),
        m.len() == e - s,
        forall|j: int| 0 <= j < m.len() ==> (#[trigger] m[j]).id == rows[s + j].id,
        0 <= p <= rows.len() - (e - s),
    ensures
        ({
            let r = spliced(rows.subrange(0, s) + rows.subrange(e, rows.len() as int), p, m);
            &&& r.len() == rows.len()
            &&& forall|k: int| 0 <= k < r.len() ==> 0 <= origin(k, s, e, p) < rows.len() && (#[trigger] r[k]).id
                == rows[origin(k, s, e, p)].id
            &&& ids_unique(rows) ==> ids_unique(r)
            &&& forall|x: u128| has_id(r, x) <==> has_id(rows, x)
        }),
{
    let rest = rows.subrange(0, s) + rows.subrange(e, rows.len() as int);
    let r = spliced(rest, p, m);
    let n = e - s;
    assert forall|k: int| 0 <= k < r.len() implies 0 <= origin(k, s, e, p) < rows.len() && (#[trigger] r[k]).id
        == rows[origin(k, s, e, p)].id by {
        if k < p {
            assert(r[k] == rest[k]);
        } else if k < p + n {
            assert(r[k] == m[k - p]);
        } else {
            assert(r[k] == rest[k - n]);
        }
    }
    if ids_unique(rows) {
        assert forall|a: int, b: int| 0 <= a < b < r.len() implies r[a].id != r[b].id by {
            assert(r[a].id == rows[origin(a, s, e, p)].id);
            assert(r[b].id == rows[origin(b, s, e, p)].id);
        }
    }
    assert forall|x: u128| has_id(r, x) <==> has_id(rows, x) by {
        if has_id(r, x) {
            let k = choose|k: int| 0 <= k < r.len() && #[trigger] r[k].id == x;
            assert(r[k].id == rows[origin(k, s, e, p)].id);
        }
        if has_id(rows, x) {
            let i = choose|i: int| 0 <= i < rows.len() && #[trigger] rows[i].id == x;
            let k = if i < s {
                if i < p {
                    i
                } else {
                    i + n
                }
            } else if i < e {
                p + (i - s)
            } else if i - n < p {
                i - n
            } else {
                i
            };
            assert(origin(k, s, e, p) == i);
            assert(r[k].id == rows[i].id);
        }
    }
}

/// A drag-and-drop move keeps the navigator a tree: the rows after an
/// accepted move are again the walk of a tree, with the same ids, each
/// once, and none lost or added.
pub proof fn law_list_move_keeps_the_tree(rows: Seq<ListRow>, id: u128, drop: ListDrop)
    requires
        rows_wf(rows),
        ids_unique(rows),
        rows.len() <= usize::MAX,
    ensures
        spec_list_move(rows, id, drop) matches Some(r) ==> {
            &&& rows_wf(r)
            &&& ids_unique(r)
            &&& r.len() == rows.len()
            &&& forall|x: u128| has_id(r, x) <==> has_id(rows, x)
        },
{
    if spec_list_move(rows, id, drop) is Some {
        let s = position(rows, id);
        assert(0 <= s < rows.len() && rows[s].id == id);
        let e = subtree_end(rows, s);
        let d = rows[s].depth as int;
        lemma_run_end(rows, d, s + 1);
        let seg = rows.subrange(s, e);
        let rest = rows.subrange(0, s) + rows.subrange(e, rows.len() as int);
        lemma_cut_wf(rows, s);
        assert(rest.len() == rows.len() - (e - s));
        match drop {
            ListDrop::RootEnd => {
                let p = rest.len() as int;
                lemma_shifted_subtree(rows, s, 0);
                let m = shifted(seg, d, 0);
                assert(rest + m =~= spliced(rest, p, m));
                lemma_splice_wf(rest, p, m);
                lemma_splice_ids(rows, s, e, p, m);
            },
            ListDrop::IntoFolder(f) => {
                let fi = position(rows, f);
                assert(0 <= fi < rows.len() && rows[fi].id == f);
                let ri = after_cut(fi, s, e);
                assert(rest[ri] == rows[fi]);
                let p = subtree_end(rest, ri);
                lemma_run_end(rest, rest[ri].depth as int, ri + 1);
                lemma_depth_bound(rest, ri);
                let base = rest[ri].depth + 1;
                lemma_shifted_subtree(rows, s, base);
                let m = shifted(seg, d, base);
                if p - 1 > ri {
                    assert(rest[p - 1].depth > rest[ri].depth);
                }
                lemma_splice_wf(rest, p, m);
                lemma_splice_ids(rows, s, e, p, m);
            },
            ListDrop::BeforeItem(t) => {
                let ti = position(rows, t);
                assert(0 <= ti < rows.len() && rows[ti].id == t);
                let ri = after_cut(ti, s, e);
                assert(rest[ri] == rows[ti]);
                let p = if rest[ri].kind == ListKind::Library {
                    ri + 1
                } else {
                    ri
                };
                lemma_depth_bound(rest, ri);
                let base = rest[ri].depth as int;
                lemma_shifted_subtree(rows, s, base);
                let m = shifted(seg, d, base);
                if p < rest.len() {
                    if p == ri + 1 {
                        assert(step_ok(rest, p));
                    }
                }
                if p > 0 && p == ri {
                    assert(step_ok(rest, ri));
                }
                lemma_splice_wf(rest, p, m);
                lemma_splice_ids(rows, s, e, p, m);
            },
        }
    }
}

/// Removing a list or folder drops it with everything under it and
/// nothing else: the result is again a tree's walk with unique ids, the
/// item is gone, and every row outside its subtree stays. The Library root
/// is never removed.
pub proof fn law_remove_list_drops_the_subtree(rows: Seq<ListRow>, id: u128)
    requires
        rows_wf(rows),
        ids_unique(rows),
    ensures
        ({
            let r = spec_remove_list(rows, id);
            &&& rows_wf(r)
            &&& ids_unique(r)
            &&& spec_is_library_list(rows, id) ==> r == rows
            &&& has_id(rows, id) && !spec_is_library_list(rows, id) ==> {
                let s = position(rows, id);
                let e = subtree_end(rows, s);
                &&& !has_id(r, id)
                &&& forall|k: int| 0 <= k < rows.len() && !(s <= k < e) ==> has_id(r, #[trigger] rows[k].id)
                &&& forall|x: u128| has_id(r, x) ==> has_id(rows, x)
            }
        }),
{
    if has_id(rows, id) && !spec_is_library_list(rows, id) {
        let s = position(rows, id);
        let e = subtree_end(rows, s);
        assert(0 <= s < rows.len() && rows[s].id == id);
        lemma_run_end(rows, rows[s].depth as int, s + 1);
        lemma_cut_wf(rows, s);
        let r = rows.subrange(0, s) + rows.subrange(e, rows.len() as int);
        assert forall|k: int| 0 <= k < r.len() implies #[trigger] r[k] == rows[after_cut_inverse(k, s, e)] && !(s
            <= after_cut_inverse(k, s, e) < e) && 0 <= after_cut_inverse(k, s, e) < rows.len() by {}
        assert forall|a: int, b: int| 0 <= a < b < r.len() implies r[a].id != r[b].id by {
            assert(r[a] == rows[after_cut_inverse(a, s, e)]);
            assert(r[b] == rows[after_cut_inverse(b, s, e)]);
        }
        if has_id(r, id) {
            let k = choose|k: int| 0 <= k < r.len() && #[trigger] r[k].id == id;
            assert(r[k] == rows[after_cut_inverse(k, s, e)]);
            let o = after_cut_inverse(k, s, e);
            if o < s {
                assert(rows[o].id != rows[s].id);
            } else {
                assert(rows[s].id != rows[o].id);
            }
        }
        assert forall|k: int| 0 <= k < rows.len() && !(s <= k < e) implies has_id(r, #[trigger] rows[k].id) by {
            let j = after_cut(k, s, e);
            assert(r[j] == rows[k]);
        }
        assert forall|x: u128| has_id(r, x) implies has_id(rows, x) by {
            let k = choose|k: int| 0 <= k < r.len() && #[trigger] r[k].id == x;
            assert(r[k] == rows[after_cut_inverse(k, s, e)]);
        }
    }
}

/// With unique ids, the row that has an id is its position.
proof fn lemma_position_unique(rows: Seq<ListRow>, id: u128, k: int)
    requires
        ids_unique(rows),
        0 <= k < rows.len(),
        rows[k].id == id,
    ensures
        has_id(rows, id),
        position(rows, id) == k,
{
    assert(rows[k].id == id);
    let q = position(rows, id);
    if q != k {
        if q < k {
            assert(rows[q].id != rows[k].id);
        } else {
            assert(rows[k].id != rows[q].id);
        }
    }
}

/// Whether the rows are the depth-first walk of a tree.
fn rows_are_a_tree(rows: &Vec<ListRow>) -> (r: bool)
    ensures
        r == rows_wf(rows@),
{
    if rows.len() == 0 {
        return true;
    }
    if rows[0].depth != 0 {
        return false;
    }
    let mut j: usize = 1;
    while j < rows.len()
        invariant
            1 <= j <= rows@.len(),
            rows@[0].depth == 0,
            forall|k: int| 0 < k < j ==> #[trigger] step_ok(rows@, k),
        decreases rows@.len() - j,
    {
        let a = rows[j - 1];
        let b = rows[j];
        let deeper = a.depth < usize::MAX && b.depth == a.depth + 1;
        if b.depth > a.depth && !deeper {
            assert(!step_ok(rows@, j as int));
            return false;
        }
        if deeper && a.kind != ListKind::Folder {
            assert(!step_ok(rows@, j as int));
            return false;
        }
        j = j + 1;
    }
    true
}

/// Whether no id occurs twice.
fn ids_are_unique(rows: &Vec<ListRow>) -> (r: bool)
    ensures
        r == ids_unique(rows@),
{
    let mut seen: HashMap<u128, bool> = HashMap::new();
    let mut i: usize = 0;
    while i < rows.len()
        invariant
            i <= rows@.len(),
            forall|k: u128| seen@.contains_key(k) <==> exists|j: int| 0 <= j < i && #[trigger] rows@[j].id == k,
            forall|a: int, b: int| 0 <= a < b < i ==> rows@[a].id != rows@[b].id,
        decreases rows@.len() - i,
    {
        let id = rows[i].id;
        if seen.contains_key(&id) {
            proof {
                let j = choose|j: int| 0 <= j < i && #[trigger] rows@[j].id == id;
                assert(rows@[j].id == rows@[i as int].id);
            }
            return false;
        }
        seen.insert(id, true);
        proof {
            assert forall|k: u128| seen@.contains_key(k) <==> exists|j: int| 0 <= j < i + 1 && #[trigger] rows@[j].id
                == k by {
                if k == id {
                    assert(rows@[i as int].id == k);
                }
            }
        }
        i = i + 1;
    }
    true
}

/// The index of the row with the id, if any.
fn find_row(rows: &Vec<ListRow>, id: u128) -> (r: Option<usize>)
    ensures
        r is None <==> !has_id(rows@, id),
        r matches Some(k) ==> k < rows@.len() && rows@[k as int].id == id,
{
    let mut i: usize = 0;
    while i < rows.len()
        invariant
            i <= rows@.len(),
            forall|j: int| 0 <= j < i ==> rows@[j].id != id,
        decreases rows@.len() - i,
    {
        if rows[i].id == id {
            return Some(i);
        }
        i = i + 1;
    }
    None
}

/// The end of the run of rows deeper than `depth` from `j` on.
fn find_run_end(rows: &Vec<ListRow>, depth: usize, j: usize) -> (r: usize)
    requires
        j <= rows@.len(),
    ensures
        r == run_end(rows@, depth as int, j as int),
{
    let mut k = j;
    while k < rows.len() && rows[k].depth > depth
        invariant
            j <= k <= rows@.len(),
            run_end(rows@, depth as int, j as int) == run_end(rows@, depth as int, k as int),
        decreases rows@.len() - k,
    {
        k = k + 1;
    }
    k
}

/// Appends the rows `[from, to)` of `src`.
fn push_range(out: &mut Vec<ListRow>, src: &Vec<ListRow>, from: usize, to: usize)
    requires
        from <= to <= src@.len(),
    ensures
        final(out)@ == old(out)@ + src@.subrange(from as int, to as int),
{
    let mut i = from;
    while i < to
        invariant
            from <= i <= to,
            to <= src@.len(),
            out@ == old(out)@ + src@.subrange(from as int, i as int),
        decreases to - i,
    {
        out.push(src[i]);
        assert(src@.subrange(from as int, i + 1) =~= src@.subrange(from as int, i as int).push(src@[i as int]));
        i = i + 1;
    }
}

/// Appends the rows `[from, to)` of `src` moved from depth `d` to `base`.
fn push_shifted(out: &mut Vec<ListRow>, src: &Vec<ListRow>, from: usize, to: usize, d: usize, base: usize)
    requires
        from <= to <= src@.len(),
        forall|k: int| from <= k < to ==> #[trigger] src@[k].depth >= d && src@[k].depth - d + base <= usize::MAX,
    ensures
        final(out)@ == old(out)@ + shifted(src@.subrange(from as int, to as int), d as int, base as int),
{
    let mut i = from;
    while i < to
        invariant
            from <= i <= to,
            to <= src@.len(),
            forall|k: int| from <= k < to ==> #[trigger] src@[k].depth >= d && src@[k].depth - d + base <= usize::MAX,
            out@ == old(out)@ + shifted(src@.subrange(from as int, i as int), d as int, base as int),
        decreases to - i,
    {
        let r = src[i];
        assert(src@[i as int].depth >= d);
        out.push(ListRow { id: r.id, kind: r.kind, depth: r.depth - d + base });
        assert(shifted(src@.subrange(from as int, i + 1), d as int, base as int) =~= shifted(
            src@.subrange(from as int, i as int),
            d as int,
            base as int,
        ).push(ListRow { id: r.id, kind: r.kind, depth: (r.depth - d + base) as usize }));
        i = i + 1;
    }
}

/// The navigator's list tree, as the rows of its depth-first walk, with
/// every id once.
pub struct ListTree {
    rows: Vec<ListRow>,
}

impl ListTree {
    #[verifier::type_invariant]
    spec fn inv(self) -> bool {
        &&& rows_wf(self.rows@)
        &&& ids_unique(self.rows@)
    }

    /// The rows, in walk order.
    pub closed spec fn view(self) -> Seq<ListRow> {
        self.rows@
    }

    /// The tree with the given rows, or `None` when they are not the walk
    /// of a tree or repeat an id.
    pub fn from_rows(rows: Vec<ListRow>) -> (r: Option<ListTree>)
        ensures
            r is Some <==> rows_wf(rows@) && ids_unique(rows@),
            r matches Some(t) ==> t.view() == rows@,
    {
        if rows_are_a_tree(&rows) && ids_are_unique(&rows) {
            Some(ListTree { rows })
        } else {
            None
        }
    }

    /// The rows, in walk order.
    pub fn rows(&self) -> (r: &Vec<ListRow>)
        ensures
            r@ == self.view(),
            rows_wf(r@),
            ids_unique(r@),
    {
        proof {
            use_type_invariant(self);
        }
        &self.rows
    }

    /// Whether `id` is the Library root.
    pub fn is_library_list(&self, id: u128) -> (r: bool)
        ensures
            r == spec_is_library_list(self.view(), id),
    {
        proof {
            use_type_invariant(self);
        }
        match find_row(&self.rows, id) {
            Some(k) => {
                proof {
                    lemma_position_unique(self.rows@, id, k as int);
                }
                self.rows[k].kind == ListKind::Library
            },
            None => false,
        }
    }

    /// The folders in walk order, each with its id and its level.
    pub fn list_folders(&self) -> (r: Vec<(u128, usize)>)
        ensures
            r@ == spec_list_folders(self.view()),
    {
        let mut out: Vec<(u128, usize)> = Vec::new();
        let mut i: usize = 0;
        while i < self.rows.len()
            invariant
                i <= self.rows@.len(),
                out@ == spec_list_folders(self.rows@.subrange(0, i as int)),
            decreases self.rows@.len() - i,
        {
            let r = self.rows[i];
            proof {
                assert(self.rows@.subrange(0, i + 1).drop_last() =~= self.rows@.subrange(0, i as int));
                assert(self.rows@.subrange(0, i + 1).last() == r);
            }
            if r.kind == ListKind::Folder {
                out.push((r.id, r.depth));
            }
            i = i + 1;
        }
        assert(self.rows@.subrange(0, self.rows@.len() as int) =~= self.rows@);
        out
    }

    /// Removes the item `id` with its subtree; the Library root stays.
    pub fn remove_list(&mut self, id: u128)
        ensures
            final(self).view() == spec_remove_list(old(self).view(), id),
    {
        proof {
            use_type_invariant(&*self);
        }
        let ghost g = self.rows@;
        let s = match find_row(&self.rows, id) {
            Some(s) => s,
            None => return,
        };
        proof {
            lemma_position_unique(g, id, s as int);
        }
        if self.rows[s].kind == ListKind::Library {
            return;
        }
        let n = self.rows.len();
        assert(s < n);
        let e = find_run_end(&self.rows, self.rows[s].depth, s + 1);
        proof {
            lemma_run_end(g, g[s as int].depth as int, s + 1);
            lemma_cut_wf(g, s as int);
        }
        let mut rest: Vec<ListRow> = Vec::new();
        push_range(&mut rest, &self.rows, 0, s);
        push_range(&mut rest, &self.rows, e, n);
        assert(rest@ =~= g.subrange(0, s as int) + g.subrange(e as int, g.len() as int));
        assert forall|a: int, b: int| 0 <= a < b < rest@.len() implies rest@[a].id != rest@[b].id by {
            let oa = after_cut_inverse(a, s as int, e as int);
            let ob = after_cut_inverse(b, s as int, e as int);
            assert(rest@[a] == g[oa] && rest@[b] == g[ob]);
        }
        self.rows = rest;
    }

    /// Adds a new leaf item (see [`spec_insert_list_item`]). Returns whether
    /// it was added.
    pub fn insert_list_item(&mut self, after: Option<u128>, item: ListRow) -> (added: bool)
        ensures
            spec_insert_list_item(old(self).view(), after, item) matches Some(r) ==> added && final(self).view() == r,
            spec_insert_list_item(old(self).view(), after, item) is None ==> !added && final(self).view() == old(
                self,
            ).view(),
    {
        proof {
            use_type_invariant(&*self);
        }
        let ghost g = self.rows@;
        if find_row(&self.rows, item.id).is_some() {
            return false;
        }
        let n = self.rows.len();
        let (p, depth): (usize, usize) = match after {
            None => (n, 0),
            Some(a) => {
                let s = match find_row(&self.rows, a) {
                    Some(s) => s,
                    None => return false,
                };
                proof {
                    lemma_position_unique(g, a, s as int);
                    lemma_depth_bound(g, s as int);
                }
                assert(s < n);
                if self.rows[s].kind == ListKind::Folder {
                    (s + 1, self.rows[s].depth + 1)
                } else {
                    let e = find_run_end(&self.rows, self.rows[s].depth, s + 1);
                    proof {
                        lemma_run_end(g, g[s as int].depth as int, s + 1);
                        if e < n {
                            assert(step_ok(g, s + 1));
                        }
                    }
                    (e, self.rows[s].depth)
                }
            },
        };
        let row = ListRow { id: item.id, kind: item.kind, depth };
        let ghost m = seq![row];
        proof {
            if p < n && after is Some && p > 0 {
                assert(step_ok(g, p as int));
            }
            lemma_splice_wf(g, p as int, m);
            assert forall|a: int, b: int| 0 <= a < b < g.len() + 1 implies spliced(g, p as int, m)[a].id != spliced(
                g,
                p as int,
                m,
            )[b].id by {
                let r = spliced(g, p as int, m);
                if a == p {
                    assert(r[b] == g[b - 1]);
                } else if b == p {
                    assert(r[a] == g[a]);
                } else {
                    let oa = if a < p { a } else { a - 1 };
                    let ob = if b < p { b } else { b - 1 };
                    assert(r[a] == g[oa] && r[b] == g[ob]);
                }
            }
        }
        let mut out: Vec<ListRow> = Vec::new();
        push_range(&mut out, &self.rows, 0, p);
        out.push(row);
        push_range(&mut out, &self.rows, p, n);
        assert(out@ =~= spliced(g, p as int, m));
        proof {
            if after is None {
                assert(out@ =~= g.push(ListRow { depth: 0, ..item }));
            }
        }
        self.rows = out;
        true
    }

    /// Moves the item `id`, with its subtree, to where it was dropped (see
    /// [`spec_list_move`]). Returns whether it moved; a refused move
    /// changes nothing.
    #[verifier::spinoff_prover]
    #[verifier::rlimit(40)]
    pub fn apply_list_move(&mut self, id: u128, drop: ListDrop) -> (moved: bool)
        ensures
            spec_list_move(old(self).view(), id, drop) matches Some(r) ==> moved && final(self).view() == r,
            spec_list_move(old(self).view(), id, drop) is None ==> !moved && final(self).view() == old(
                self,
            ).view(),
            rows_wf(final(self).view()),
            ids_unique(final(self).view()),
    {
        proof {
            use_type_invariant(&*self);
        }
        let ghost g = self.rows@;
        let s = match find_row(&self.rows, id) {
            Some(s) => s,
            None => return false,
        };
        proof {
            lemma_position_unique(g, id, s as int);
        }
        if self.rows[s].kind == ListKind::Library {
            return false;
        }
        let d = self.rows[s].depth;
        let n = self.rows.len();
        assert(s < n);
        let e = find_run_end(&self.rows, d, s + 1);
        proof {
            lemma_run_end(g, d as int, s + 1);
        }
        let mut rest: Vec<ListRow> = Vec::new();
        push_range(&mut rest, &self.rows, 0, s);
        push_range(&mut rest, &self.rows, e, self.rows.len());
        assert(rest@ =~= g.subrange(0, s as int) + g.subrange(e as int, g.len() as int));
        let (p, base) = match drop_place(&self.rows, &rest, s, e, drop) {
            Some(place) => place,
            None => return false,
        };
        proof {
            law_list_move_keeps_the_tree(g, id, drop);
            lemma_shifted_subtree(g, s as int, base as int);
            let m = shifted(g.subrange(s as int, e as int), d as int, base as int);
            assert forall|k: int| s <= k < e implies #[trigger] g[k].depth >= d && g[k].depth - d + base
                <= usize::MAX by {
                assert(m[k - s].depth == g[s + (k - s)].depth - d + base);
            }
        }
        let mut out: Vec<ListRow> = Vec::new();
        push_range(&mut out, &rest, 0, p);
        push_shifted(&mut out, &self.rows, s, e, d, base);
        push_range(&mut out, &rest, p, rest.len());
        assert(out@ =~= spliced(rest@, p as int, shifted(g.subrange(s as int, e as int), d as int, base as int)));
        self.rows = out;
        true
    }
}

/// Where a dropped subtree `[s, e)` goes among the rows left after cutting
/// it out, and the depth its root takes; `None` when the drop is refused.
fn drop_place(rows: &Vec<ListRow>, rest: &Vec<ListRow>, s: usize, e: usize, drop: ListDrop) -> (r: Option<
    (usize, usize),
>)
    requires
        rows_wf(rows@),
        ids_unique(rows@),
        s < rows@.len(),
        e == subtree_end(rows@, s as int),
        rows@[s as int].kind != ListKind::Library,
        rest@ == rows@.subrange(0, s as int) + rows@.subrange(e as int, rows@.len() as int),
    ensures
        ({
            let g = rows@;
            let d = g[s as int].depth as int;
            let seg = g.subrange(s as int, e as int);
            &&& r is None <==> spec_list_move(g, g[s as int].id, drop) is None
            &&& r matches Some((p, base)) ==> {
                &&& base <= p <= rest@.len()
                &&& spec_list_move(g, g[s as int].id, drop) == Some(spliced(rest@, p as int, shifted(seg, d, base as int)))
            }
        }),
{
    let ghost g = rows@;
    let ghost rg = rest@;
    let ghost id = g[s as int].id;
    proof {
        lemma_position_unique(g, id, s as int);
        lemma_run_end(g, g[s as int].depth as int, s + 1);
        lemma_cut_wf(g, s as int);
    }
    match drop {
        ListDrop::RootEnd => {
            let ghost seg = g.subrange(s as int, e as int);
            assert(rg + shifted(seg, g[s as int].depth as int, 0) =~= spliced(
                rg,
                rest@.len() as int,
                shifted(seg, g[s as int].depth as int, 0),
            ));
            Some((rest.len(), 0))
        },
        ListDrop::IntoFolder(f) => {
            let fi = match find_row(rows, f) {
                Some(fi) => fi,
                None => return None,
            };
            proof {
                lemma_position_unique(g, f, fi as int);
            }
            if s <= fi && fi < e {
                return None;
            }
            if rows[fi].kind != ListKind::Folder {
                return None;
            }
            let ri = if fi < s {
                fi
            } else {
                fi - (e - s)
            };
            assert(rg[ri as int] == g[fi as int]);
            proof {
                lemma_depth_bound(rg, ri as int);
                lemma_run_end(rg, rg[ri as int].depth as int, ri + 1);
            }
            let p = find_run_end(rest, rest[ri].depth, ri + 1);
            Some((p, rest[ri].depth + 1))
        },
        ListDrop::BeforeItem(t) => {
            let ti = match find_row(rows, t) {
                Some(ti) => ti,
                None => return None,
            };
            proof {
                lemma_position_unique(g, t, ti as int);
            }
            if s <= ti && ti < e {
                return None;
            }
            let ri = if ti < s {
                ti
            } else {
                ti - (e - s)
            };
            assert(rg[ri as int] == g[ti as int]);
            proof {
                lemma_depth_bound(rg, ri as int);
            }
            let p = if rest[ri].kind == ListKind::Library {
                ri + 1
            } else {
                ri
            };
            Some((p, rest[ri].depth))
        },
    }
}

} // verus!
