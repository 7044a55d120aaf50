//! General properties of the layout reconstruction, proved once and for all:
//! disjoint panes come out as one ordered column each, in an order that does
//! not depend on the order the panes arrive in, and the merge and split rules
//! leave exactly the intervals and membership counters they promise.

use vstd::prelude::*;

use crate::column::{bump_all, bump_win, ColumnView, WinView};
use crate::layout::{build_columns, col_of, cols_ordered_disjoint, place, panes_wf};

verus! {

/// The panes' column intervals are pairwise disjoint.
pub open spec fn panes_column_disjoint(panes: Seq<WinView>) -> bool {
    forall|a: int, b: int|
        0 <= a < b < panes.len() ==> (#[trigger] panes[a]).col + panes[a].width <= (
        #[trigger] panes[b]).col || panes[b].col + panes[b].width <= panes[a].col
}

/// No pane of the sequence floats.
pub open spec fn none_floating(panes: Seq<WinView>) -> bool {
    forall|i: int| 0 <= i < panes.len() ==> !(#[trigger] panes[i]).floating
}

/// Two columns cover disjoint intervals.
pub open spec fn col_disjoint_from(c: ColumnView, d: ColumnView) -> bool {
    c.end <= d.start || d.end <= c.start
}

/// The column is exactly the own column of one of the panes.
pub open spec fn column_from_some_pane(c: ColumnView, panes: Seq<WinView>) -> bool {
    exists|j: int| 0 <= j < panes.len() && c == col_of(#[trigger] panes[j])
}

/// Some column is exactly the pane's own column.
pub open spec fn pane_has_column(p: WinView, cols: Seq<ColumnView>) -> bool {
    exists|k: int| 0 <= k < cols.len() && #[trigger] cols[k] == col_of(p)
}

/// The position, scanning from `i`, of the first column that does not lie
/// entirely left of the candidate.
spec fn fit_index(cols: Seq<ColumnView>, cand: ColumnView, i: int) -> int
    decreases cols.len() - i
        when 0 <= i <= cols.len()
{
    if i >= cols.len() {
        i
    } else if cols[i].end <= cand.start {
        fit_index(cols, cand, i + 1)
    } else {
        i
    }
}

/// A candidate disjoint from every column is inserted as it stands, at the
/// first position whose column does not lie left of it.
proof fn lemma_place_disjoint_from(cols: Seq<ColumnView>, cand: ColumnView, i: int)
    requires
        0 <= i <= cols.len(),
        cand.start < cand.end,
        forall|k: int| i <= k < cols.len() ==> col_disjoint_from(#[trigger] cols[k], cand),
    ensures
        i <= fit_index(cols, cand, i) <= cols.len(),
        place(cols, cand, i) == cols.insert(fit_index(cols, cand, i), cand),
        forall|k: int| i <= k < fit_index(cols, cand, i) ==> (#[trigger] cols[k]).end <= cand.start,
        fit_index(cols, cand, i) < cols.len() ==> cand.end <= cols[fit_index(cols, cand, i)].start,
    decreases cols.len() - i,
{
    if i >= cols.len() {
        assert(cols.push(cand) =~= cols.insert(i, cand));
    } else if cols[i].end <= cand.start {
        lemma_place_disjoint_from(cols, cand, i + 1);
    } else {
        assert(col_disjoint_from(cols[i], cand));
        assert(cand.end <= cols[i].start);
    }
}

/// For a set of panes with pairwise disjoint column intervals, none of them
/// floating, reconstruction yields exactly one column per pane, each the
/// pane's own interval with the pane as its only member, ordered left to
/// right.
#[verifier::rlimit(60)]
pub proof fn lemma_disjoint_reconstruction(panes: Seq<WinView>)
    requires
        panes_wf(panes),
        none_floating(panes),
        panes_column_disjoint(panes),
    ensures
        build_columns(panes).len() == panes.len(),
        cols_ordered_disjoint(build_columns(panes)),
        forall|k: int|
            0 <= k < build_columns(panes).len() ==> column_from_some_pane(
                #[trigger] build_columns(panes)[k],
                panes,
            ),
        forall|j: int|
            0 <= j < panes.len() ==> pane_has_column(#[trigger] panes[j], build_columns(panes)),
    decreases panes.len(),
{
    if panes.len() == 0 {
    } else {
        let prev_panes = panes.drop_last();
        let p = panes.last();
        let cand = col_of(p);
        assert(panes_wf(prev_panes));
        assert(none_floating(prev_panes));
        assert(panes_column_disjoint(prev_panes));
        lemma_disjoint_reconstruction(prev_panes);
        let prev = build_columns(prev_panes);
        assert forall|k: int| 0 <= k < prev.len() implies col_disjoint_from(
            #[trigger] prev[k],
            cand,
        ) by {
            assert(column_from_some_pane(prev[k], prev_panes));
            let j = choose|j: int|
                0 <= j < prev_panes.len() && prev[k] == col_of(#[trigger] prev_panes[j]);
            assert(prev_panes[j] == panes[j]);
            assert(panes[j].col + panes[j].width <= p.col || p.col + p.width <= panes[j].col);
        }
        assert(cand.start < cand.end);
        lemma_place_disjoint_from(prev, cand, 0);
        let f = fit_index(prev, cand, 0);
        let cols = prev.insert(f, cand);
        assert(build_columns(panes) == cols);
        assert forall|a: int, b: int| 0 <= a < b < cols.len() implies (#[trigger] cols[a]).end <= (
        #[trigger] cols[b]).start by {
            assert forall|k: int| 0 <= k < prev.len() implies (#[trigger] prev[k]).start < prev[
                k
            ].end by {
                assert(column_from_some_pane(prev[k], prev_panes));
                let j = choose|j: int|
                    0 <= j < prev_panes.len() && prev[k] == col_of(#[trigger] prev_panes[j]);
                assert(prev_panes[j].wf());
            }
            if a < f && b < f {
                assert(cols[a] == prev[a] && cols[b] == prev[b]);
            } else if a < f && b == f {
                assert(cols[a] == prev[a] && cols[b] == cand);
            } else if a < f && b > f {
                assert(cols[a] == prev[a] && cols[b] == prev[b - 1]);
            } else if a == f {
                assert(cols[a] == cand && cols[b] == prev[b - 1]);
                assert(cand.end <= prev[f].start);
                if b - 1 > f {
                    assert(prev[f].end <= prev[b - 1].start);
                    assert(prev[f].start < prev[f].end);
                }
            } else {
                assert(cols[a] == prev[a - 1] && cols[b] == prev[b - 1]);
            }
        }
        assert forall|k: int| 0 <= k < cols.len() implies column_from_some_pane(
            #[trigger] cols[k],
            panes,
        ) by {
            if k == f {
                assert(cols[k] == col_of(panes[panes.len() - 1]));
            } else {
                let k0: int = if k < f {
                    k
                } else {
                    k - 1
                };
                assert(cols[k] == prev[k0]);
                assert(column_from_some_pane(prev[k0], prev_panes));
                let j = choose|j: int|
                    0 <= j < prev_panes.len() && prev[k0] == col_of(#[trigger] prev_panes[j]);
                assert(prev_panes[j] == panes[j]);
                assert(cols[k] == col_of(panes[j]));
            }
        }
        assert forall|j: int| 0 <= j < panes.len() implies pane_has_column(
            #[trigger] panes[j],
            cols,
        ) by {
            if j == panes.len() - 1 {
                assert(cols[f] == col_of(panes[j]));
            } else {
                assert(panes[j] == prev_panes[j]);
                assert(pane_has_column(prev_panes[j], prev));
                let k = choose|k: int|
                    0 <= k < prev.len() && #[trigger] prev[k] == col_of(prev_panes[j]);
                if k < f {
                    assert(cols[k] == col_of(panes[j]));
                } else {
                    assert(cols[k + 1] == col_of(panes[j]));
                }
            }
        }
    }
}

/// Two ordered-disjoint sequences of non-degenerate columns with the same
/// members are the same sequence.
proof fn lemma_ordered_unique(c1: Seq<ColumnView>, c2: Seq<ColumnView>)
    requires
        cols_ordered_disjoint(c1),
        cols_ordered_disjoint(c2),
        forall|i: int| 0 <= i < c1.len() ==> (#[trigger] c1[i]).start < c1[i].end,
        forall|i: int| 0 <= i < c2.len() ==> (#[trigger] c2[i]).start < c2[i].end,
        c1.len() == c2.len(),
        forall|i: int| 0 <= i < c1.len() ==> c2.contains(#[trigger] c1[i]),
        forall|i: int| 0 <= i < c2.len() ==> c1.contains(#[trigger] c2[i]),
    ensures
        c1 == c2,
    decreases c1.len(),
{
    if c1.len() == 0 {
        assert(c1 =~= c2);
    } else {
        assert(c2.contains(c1[0]));
        let j = choose|j: int| 0 <= j < c2.len() && c2[j] == c1[0];
        assert(c1.contains(c2[0]));
        let i = choose|i: int| 0 <= i < c1.len() && c1[i] == c2[0];
        if j > 0 && i > 0 {
            assert(c2[0].end <= c2[j].start);
            assert(c2[0].start < c1[0].start);
            assert(c1[0].end <= c1[i].start);
            assert(c1[0].start < c2[0].start);
            assert(false);
        }
        assert(c1[0] == c2[0]);
        let t1 = c1.drop_first();
        let t2 = c2.drop_first();
        assert forall|k: int| 0 <= k < t1.len() implies t2.contains(#[trigger] t1[k]) by {
            assert(t1[k] == c1[k + 1]);
            assert(c2.contains(c1[k + 1]));
            let m = choose|m: int| 0 <= m < c2.len() && c2[m] == c1[k + 1];
            assert(c1[0].end <= c1[k + 1].start);
            assert(c1[0].start < c1[k + 1].start);
            assert(m != 0);
            assert(t2[m - 1] == c1[k + 1]);
        }
        assert forall|k: int| 0 <= k < t2.len() implies t1.contains(#[trigger] t2[k]) by {
            assert(t2[k] == c2[k + 1]);
            assert(c1.contains(c2[k + 1]));
            let m = choose|m: int| 0 <= m < c1.len() && c1[m] == c2[k + 1];
            assert(c2[0].end <= c2[k + 1].start);
            assert(c2[0].start < c2[k + 1].start);
            assert(m != 0);
            assert(t1[m - 1] == c2[k + 1]);
        }
        assert(cols_ordered_disjoint(t1)) by {
            assert forall|a: int, b: int| 0 <= a < b < t1.len() implies (#[trigger] t1[a]).end <= (
            #[trigger] t1[b]).start by {
                assert(t1[a] == c1[a + 1] && t1[b] == c1[b + 1]);
            }
        }
        assert(cols_ordered_disjoint(t2)) by {
            assert forall|a: int, b: int| 0 <= a < b < t2.len() implies (#[trigger] t2[a]).end <= (
            #[trigger] t2[b]).start by {
                assert(t2[a] == c2[a + 1] && t2[b] == c2[b + 1]);
            }
        }
        assert(forall|k: int| 0 <= k < t1.len() ==> (#[trigger] t1[k]).start < t1[k].end) by {
            assert(forall|k: int| 0 <= k < t1.len() ==> t1[k] == c1[k + 1]);
        }
        assert(forall|k: int| 0 <= k < t2.len() ==> (#[trigger] t2[k]).start < t2[k].end) by {
            assert(forall|k: int| 0 <= k < t2.len() ==> t2[k] == c2[k + 1]);
        }
        lemma_ordered_unique(t1, t2);
        assert forall|k: int| 0 <= k < c1.len() implies c1[k] == c2[k] by {
            if k > 0 {
                assert(c1[k] == t1[k - 1]);
                assert(c2[k] == t2[k - 1]);
            }
        }
        assert(c1 =~= c2);
    }
}

/// Reconstruction of disjoint panes does not depend on the order the panes
/// arrive in: two pane lists with the same members give the same columns.
pub proof fn lemma_reconstruction_permutation_invariant(p1: Seq<WinView>, p2: Seq<WinView>)
    requires
        panes_wf(p1),
        none_floating(p1),
        panes_column_disjoint(p1),
        panes_wf(p2),
        none_floating(p2),
        panes_column_disjoint(p2),
        p1.to_multiset() == p2.to_multiset(),
    ensures
        build_columns(p1) == build_columns(p2),
{
    lemma_disjoint_reconstruction(p1);
    lemma_disjoint_reconstruction(p2);
    p1.to_multiset_ensures();
    p2.to_multiset_ensures();
    assert(p1.len() == p2.len());
    let b1 = build_columns(p1);
    let b2 = build_columns(p2);
    assert forall|i: int| 0 <= i < b1.len() implies b2.contains(#[trigger] b1[i]) by {
        assert(column_from_some_pane(b1[i], p1));
        let j = choose|j: int| 0 <= j < p1.len() && b1[i] == col_of(#[trigger] p1[j]);
        assert(p1.contains(p1[j]));
        assert(p1.to_multiset().count(p1[j]) > 0);
        assert(p2.contains(p1[j]));
        let m = choose|m: int| 0 <= m < p2.len() && #[trigger] p2[m] == p1[j];
        assert(pane_has_column(p2[m], b2));
        let k = choose|k: int| 0 <= k < b2.len() && #[trigger] b2[k] == col_of(p2[m]);
        assert(b2[k] == b1[i]);
    }
    assert forall|i: int| 0 <= i < b2.len() implies b1.contains(#[trigger] b2[i]) by {
        assert(column_from_some_pane(b2[i], p2));
        let j = choose|j: int| 0 <= j < p2.len() && b2[i] == col_of(#[trigger] p2[j]);
        assert(p2.contains(p2[j]));
        assert(p2.to_multiset().count(p2[j]) > 0);
        assert(p1.contains(p2[j]));
        let m = choose|m: int| 0 <= m < p1.len() && #[trigger] p1[m] == p2[j];
        assert(pane_has_column(p1[m], b1));
        let k = choose|k: int| 0 <= k < b1.len() && #[trigger] b1[k] == col_of(p1[m]);
        assert(b1[k] == b2[i]);
    }
    assert forall|i: int| 0 <= i < b1.len() implies (#[trigger] b1[i]).start < b1[i].end by {
        assert(column_from_some_pane(b1[i], p1));
        let j = choose|j: int| 0 <= j < p1.len() && b1[i] == col_of(#[trigger] p1[j]);
        assert(p1[j].wf());
    }
    assert forall|i: int| 0 <= i < b2.len() implies (#[trigger] b2[i]).start < b2[i].end by {
        assert(column_from_some_pane(b2[i], p2));
        let j = choose|j: int| 0 <= j < p2.len() && b2[i] == col_of(#[trigger] p2[j]);
        assert(p2[j].wf());
    }
    lemma_ordered_unique(b1, b2);
}

/// Two panes with the same left edge and different widths merge into one
/// column spanning the wider interval; the pane from the narrower interval
/// is counted into one more column and the other is not.
pub proof fn lemma_same_start_merge(p1: WinView, p2: WinView)
    requires
        p1.wf(),
        p2.wf(),
        p1.num_columns == 1,
        p2.num_columns == 1,
        !p1.floating,
        !p2.floating,
        p1.col == p2.col,
        p1.width != p2.width,
    ensures
        build_columns(seq![p1, p2]).len() == 1,
        build_columns(seq![p1, p2])[0].start == p1.col,
        build_columns(seq![p1, p2])[0].end == p1.col + (if p1.width > p2.width {
            p1.width
        } else {
            p2.width
        }),
        build_columns(seq![p1, p2])[0].windows == seq![
            if p1.width < p2.width {
                bump_win(p1)
            } else {
                p1
            },
            if p2.width < p1.width {
                bump_win(p2)
            } else {
                p2
            },
        ],
{
    reveal_with_fuel(build_columns, 4);
    reveal_with_fuel(place, 4);
    let s = seq![p1, p2];
    assert(s.drop_last() =~= seq![p1]);
    assert(seq![p1].drop_last() =~= Seq::<WinView>::empty());
    let c1 = col_of(p1);
    let c2 = col_of(p2);
    assert(build_columns(seq![p1]) == place(Seq::empty(), c1, 0));
    assert(place(Seq::<ColumnView>::empty(), c1, 0) =~= seq![c1]);
    assert(build_columns(s) == place(seq![c1], c2, 0));
    assert(bump_all(seq![p1]) =~= seq![bump_win(p1)]);
    assert(bump_all(seq![p2]) =~= seq![bump_win(p2)]);
    if p1.width < p2.width {
        assert(build_columns(s)[0].windows =~= seq![bump_win(p1), p2]);
    } else {
        assert(build_columns(s)[0].windows =~= seq![p1, bump_win(p2)]);
    }
}

/// A pane whose interval is a strict subset of an existing column splits
/// that column: the column keeps the part left of the pane with its panes
/// counted into one more column, and the pane is isolated as its own column
/// right after it.
pub proof fn lemma_strict_subset_split(p1: WinView, p2: WinView)
    requires
        p1.wf(),
        p2.wf(),
        p1.num_columns == 1,
        p2.num_columns == 1,
        !p1.floating,
        !p2.floating,
        p1.col < p2.col,
        p2.col + p2.width < p1.col + p1.width,
    ensures
        build_columns(seq![p1, p2]).len() == 2,
        build_columns(seq![p1, p2])[0] == (ColumnView {
            start: p1.col,
            end: p2.col,
            windows: seq![bump_win(p1)],
        }),
        build_columns(seq![p1, p2])[1] == col_of(p2),
{
    reveal_with_fuel(build_columns, 4);
    reveal_with_fuel(place, 4);
    let s = seq![p1, p2];
    assert(s.drop_last() =~= seq![p1]);
    assert(seq![p1].drop_last() =~= Seq::<WinView>::empty());
    let c1 = col_of(p1);
    let c2 = col_of(p2);
    assert(build_columns(seq![p1]) == place(Seq::empty(), c1, 0));
    assert(place(Seq::<ColumnView>::empty(), c1, 0) =~= seq![c1]);
    assert(build_columns(s) == place(seq![c1], c2, 0));
    assert(bump_all(seq![p1]) =~= seq![bump_win(p1)]);
    let shrunk = ColumnView { start: p1.col, end: p2.col, windows: seq![bump_win(p1)] };
    assert(place(seq![c1], c2, 0) =~= seq![shrunk, c2]);
}

} // verus!
