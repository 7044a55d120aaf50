//! The layout reconstructor: an unordered list of pane geometries becomes an
//! ordered sequence of columns.
//!
//! Panes are processed one at a time. For each pane a candidate column is
//! built and the existing columns are scanned left to right; the first rule
//! that matches decides where the candidate goes, whether intervals are
//! merged or truncated, and which panes' membership counters grow.

use vstd::prelude::*;

use crate::column::{bump_all, merge_spec, ColumnView, Win, WinColumn, WinView, GEOM_MAX};

verus! {

/// Largest number of panes one reconstruction accepts. A machine limit: it
/// keeps membership counters and width sums inside their integer types.
pub const MAX_PANES: usize = 65536;

/// The views of a sequence of panes.
pub open spec fn wins_view(ws: Seq<Win>) -> Seq<WinView> {
    ws.map_values(|w: Win| w@)
}

/// The views of a sequence of columns.
pub open spec fn cols_view(cs: Seq<WinColumn>) -> Seq<ColumnView> {
    cs.map_values(|c: WinColumn| c@)
}

/// The column a pane spans on its own.
pub open spec fn col_of(p: WinView) -> ColumnView {
    ColumnView { start: p.col, end: p.col + p.width, windows: seq![p] }
}

/// Scanning the ordered columns from position `i` for the place of the
/// candidate, by the ordered tie-break rules; the first matching rule wins.
pub open spec fn place(cols: Seq<ColumnView>, cand: ColumnView, i: int) -> Seq<ColumnView>
    decreases cols.len() - i
        when 0 <= i <= cols.len()
{
    if i >= cols.len() {
        // No column overlaps the candidate: it goes past the right end.
        cols.push(cand)
    } else {
        let ex = cols[i];
        if ex.end <= cand.start {
            // No overlap yet; keep scanning right.
            place(cols, cand, i + 1)
        } else if cand.end <= ex.start {
            // The candidate ends before this column: it goes right here.
            cols.insert(i, cand)
        } else if ex.start == cand.start {
            // Same left edge: the existing column absorbs the candidate. A
            // merge that widens the interval may overrun the next column's
            // start; the ordering of the sequence wins, so the widened
            // interval is cut there.
            let merged = merge_spec(ex, cand);
            let capped = if i + 1 < cols.len() && merged.end > cols[i + 1].start {
                ColumnView { end: cols[i + 1].start, ..merged }
            } else {
                merged
            };
            cols.update(i, capped)
        } else if ex.end == cand.end {
            // Same right edge: the existing column is cut at the candidate's
            // start and the candidate takes over the right part. A cut that
            // leaves nothing is dropped.
            let shrunk = ColumnView { end: cand.start, windows: bump_all(ex.windows), ..ex };
            if shrunk.start < shrunk.end {
                cols.update(i, shrunk).insert(i + 1, cand)
            } else {
                cols.update(i, cand)
            }
        } else if ex.start < cand.start && cand.end < ex.end {
            // The candidate is strictly inside the existing column: the
            // existing column keeps the left part, the candidate is isolated
            // on the right of it.
            let shrunk = ColumnView { end: cand.start, windows: bump_all(ex.windows), ..ex };
            cols.update(i, shrunk).insert(i + 1, cand)
        } else if cand.start < ex.start && ex.end < cand.end {
            // The existing column is strictly inside the candidate: the
            // candidate keeps its left part and goes before.
            let shrunk = ColumnView { end: ex.start, windows: bump_all(cand.windows), ..cand };
            cols.insert(i, shrunk)
        } else {
            // An ambiguous partial overlap cannot be attributed to any
            // column; the candidate is dropped, deliberately.
            cols
        }
    }
}

/// The ordered columns reconstructed from the panes, processed first to
/// last; floating panes take no part. For well-formed panes the result is
/// always ordered left to right with pairwise disjoint intervals.
pub open spec fn build_columns(panes: Seq<WinView>) -> Seq<ColumnView>
    decreases panes.len(),
{
    if panes.len() == 0 {
        Seq::empty()
    } else {
        let prev = build_columns(panes.drop_last());
        let p = panes.last();
        if p.floating {
            prev
        } else {
            place(prev, col_of(p), 0)
        }
    }
}

/// The overall bounding width: the rightmost edge over all panes, floating
/// ones included.
pub open spec fn bbox_width(panes: Seq<WinView>) -> int
    decreases panes.len(),
{
    if panes.len() == 0 {
        0
    } else {
        let rest = bbox_width(panes.drop_last());
        let p = panes.last();
        if p.col + p.width > rest {
            p.col + p.width
        } else {
            rest
        }
    }
}

/// The overall bounding height: the bottommost edge over all panes, floating
/// ones included.
pub open spec fn bbox_height(panes: Seq<WinView>) -> int
    decreases panes.len(),
{
    if panes.len() == 0 {
        0
    } else {
        let rest = bbox_height(panes.drop_last());
        let p = panes.last();
        if p.row + p.height > rest {
            p.row + p.height
        } else {
            rest
        }
    }
}

/// Every column of the sequence is well formed.
pub open spec fn all_wf(cols: Seq<ColumnView>) -> bool {
    forall|i: int| 0 <= i < cols.len() ==> (#[trigger] cols[i]).wf()
}

/// The columns are ordered left to right with pairwise disjoint intervals;
/// with non-degenerate columns this is exactly "sorted by `start` ascending".
pub open spec fn cols_ordered_disjoint(cols: Seq<ColumnView>) -> bool {
    forall|a: int, b: int|
        0 <= a < b < cols.len() ==> (#[trigger] cols[a]).end <= (#[trigger] cols[b]).start
}

/// Every membership counter of the column is at most `b`.
pub open spec fn col_counters_at_most(c: ColumnView, b: int) -> bool {
    forall|j: int| 0 <= j < c.windows.len() ==> (#[trigger] c.windows[j]).num_columns <= b
}

/// Every membership counter anywhere in the sequence is at most `b`.
pub open spec fn counters_at_most(cols: Seq<ColumnView>, b: int) -> bool {
    forall|i: int| 0 <= i < cols.len() ==> col_counters_at_most(#[trigger] cols[i], b)
}

/// A pane list is a valid reconstruction input: well-formed geometry and
/// fresh membership counters.
pub open spec fn panes_wf(panes: Seq<WinView>) -> bool {
    forall|i: int|
        0 <= i < panes.len() ==> (#[trigger] panes[i]).wf() && panes[i].num_columns == 1
}

/// Bumping keeps panes well formed and raises counters by exactly one.
proof fn lemma_bump_all_props(ws: Seq<WinView>, b: int)
    requires
        forall|j: int| 0 <= j < ws.len() ==> (#[trigger] ws[j]).wf(),
        forall|j: int| 0 <= j < ws.len() ==> (#[trigger] ws[j]).num_columns <= b,
    ensures
        bump_all(ws).len() == ws.len(),
        forall|j: int| 0 <= j < ws.len() ==> (#[trigger] bump_all(ws)[j]).wf(),
        forall|j: int| 0 <= j < ws.len() ==> (#[trigger] bump_all(ws)[j]).num_columns <= b + 1,
{
    assert forall|j: int| 0 <= j < ws.len() implies (#[trigger] bump_all(ws)[j]).wf() && bump_all(
        ws,
    )[j].num_columns <= b + 1 by {
        assert(bump_all(ws)[j] == crate::column::bump_win(ws[j]));
    }
}

/// Merging two well-formed columns gives a well-formed column whose
/// counters grew by at most one.
proof fn lemma_merge_props(s: ColumnView, o: ColumnView, b: int)
    requires
        s.wf(),
        o.wf(),
        col_counters_at_most(s, b),
        col_counters_at_most(o, b),
    ensures
        merge_spec(s, o).wf(),
        col_counters_at_most(merge_spec(s, o), b + 1),
{
    lemma_bump_all_props(s.windows, b);
    lemma_bump_all_props(o.windows, b);
    let m = merge_spec(s, o);
    assert forall|j: int| 0 <= j < m.windows.len() implies (#[trigger] m.windows[j]).wf()
        && m.windows[j].num_columns <= b + 1 by {
        if s.start == o.start && s.end == o.end {
            if j < s.windows.len() {
                assert(m.windows[j] == s.windows[j]);
            } else {
                assert(m.windows[j] == o.windows[j - s.windows.len()]);
            }
        } else if o.start <= s.start && s.end <= o.end {
            if j < s.windows.len() {
                assert(m.windows[j] == bump_all(s.windows)[j]);
            } else {
                assert(m.windows[j] == o.windows[j - s.windows.len()]);
            }
        } else if s.start <= o.start && o.end <= s.end {
            if j < s.windows.len() {
                assert(m.windows[j] == s.windows[j]);
            } else {
                assert(m.windows[j] == bump_all(o.windows)[j - s.windows.len()]);
            }
        } else {
            if j < s.windows.len() {
                assert(m.windows[j] == s.windows[j]);
            } else {
                assert(m.windows[j] == o.windows[j - s.windows.len()]);
            }
        }
    }
}

/// Placing a well-formed candidate among well-formed columns keeps every
/// column well formed, raises counters by at most one, and grows the
/// sequence by at most one entry.
pub proof fn lemma_place_props(cols: Seq<ColumnView>, cand: ColumnView, i: int, b: int)
    requires
        all_wf(cols),
        cand.wf(),
        cols_ordered_disjoint(cols),
        counters_at_most(cols, b),
        col_counters_at_most(cand, b),
        0 <= i <= cols.len(),
        forall|k: int| 0 <= k < i ==> (#[trigger] cols[k]).end <= cand.start,
    ensures
        all_wf(place(cols, cand, i)),
        counters_at_most(place(cols, cand, i), b + 1),
        place(cols, cand, i).len() <= cols.len() + 1,
    decreases cols.len() - i,
{
    let r = place(cols, cand, i);
    assert forall|k: int| 0 <= k < cols.len() implies col_counters_at_most(
        #[trigger] cols[k],
        b + 1,
    ) by {
        assert(col_counters_at_most(cols[k], b));
    }
    assert(col_counters_at_most(cand, b + 1));
    if i >= cols.len() {
    } else {
        let ex = cols[i];
        if ex.end <= cand.start {
            lemma_place_props(cols, cand, i + 1, b);
        } else if cand.end <= ex.start {
        } else if ex.start == cand.start {
            lemma_merge_props(ex, cand, b);
            if i + 1 < cols.len() {
                // The cap keeps the column non-degenerate: the next column
                // starts strictly right of this one's left edge.
                assert(ex.wf());
                assert(ex.end <= cols[i + 1].start);
                assert(cols[i + 1].wf());
            }
        } else if ex.end == cand.end {
            lemma_bump_all_props(ex.windows, b);
        } else if ex.start < cand.start && cand.end < ex.end {
            lemma_bump_all_props(ex.windows, b);
        } else if cand.start < ex.start && ex.end < cand.end {
            lemma_bump_all_props(cand.windows, b);
        } else {
        }
    }
}

/// Placing a well-formed candidate keeps the column sequence ordered left to
/// right with disjoint intervals, provided the scan has passed the first `i`
/// columns by the keep-scanning rule.
#[verifier::rlimit(60)]
proof fn lemma_place_ordered(cols: Seq<ColumnView>, cand: ColumnView, i: int)
    requires
        all_wf(cols),
        cand.wf(),
        cols_ordered_disjoint(cols),
        0 <= i <= cols.len(),
        forall|k: int| 0 <= k < i ==> (#[trigger] cols[k]).end <= cand.start,
    ensures
        cols_ordered_disjoint(place(cols, cand, i)),
    decreases cols.len() - i,
{
    let r = place(cols, cand, i);
    if i >= cols.len() {
        assert forall|a: int, b: int| 0 <= a < b < r.len() implies (#[trigger] r[a]).end <= (
        #[trigger] r[b]).start by {
            if b == cols.len() {
                assert(r[a] == cols[a]);
            } else {
                assert(r[a] == cols[a] && r[b] == cols[b]);
            }
        }
    } else {
        let ex = cols[i];
        assert(ex.wf());
        if ex.end <= cand.start {
            lemma_place_ordered(cols, cand, i + 1);
        } else if cand.end <= ex.start {
            assert forall|a: int, b: int| 0 <= a < b < r.len() implies (#[trigger] r[a]).end <= (
            #[trigger] r[b]).start by {
                if a < i && b < i {
                    assert(r[a] == cols[a] && r[b] == cols[b]);
                } else if a < i && b == i {
                    assert(r[a] == cols[a] && r[b] == cand);
                } else if a < i {
                    assert(r[a] == cols[a] && r[b] == cols[b - 1]);
                } else if a == i {
                    assert(r[a] == cand && r[b] == cols[b - 1]);
                    if b - 1 > i {
                        assert(cols[i].end <= cols[b - 1].start);
                    }
                } else {
                    assert(r[a] == cols[a - 1] && r[b] == cols[b - 1]);
                }
            }
        } else if ex.start == cand.start {
            let merged = merge_spec(ex, cand);
            let capped = if i + 1 < cols.len() && merged.end > cols[i + 1].start {
                ColumnView { end: cols[i + 1].start, ..merged }
            } else {
                merged
            };
            assert(capped.start == ex.start);
            assert forall|a: int, b: int| 0 <= a < b < r.len() implies (#[trigger] r[a]).end <= (
            #[trigger] r[b]).start by {
                if a == i {
                    assert(r[a] == capped && r[b] == cols[b]);
                    assert(cols[i + 1].wf());
                    assert(capped.end <= cols[i + 1].start);
                    if b > i + 1 {
                        assert(cols[i + 1].end <= cols[b].start);
                    }
                } else if b == i {
                    assert(r[a] == cols[a] && r[b] == capped);
                } else {
                    assert(r[a] == cols[a] && r[b] == cols[b]);
                }
            }
        } else if ex.end == cand.end {
            let shrunk = ColumnView { end: cand.start, windows: bump_all(ex.windows), ..ex };
            if shrunk.start < shrunk.end {
                assert forall|a: int, b: int| 0 <= a < b < r.len() implies (#[trigger] r[
                    a
                ]).end <= (#[trigger] r[b]).start by {
                    if a < i && b < i {
                        assert(r[a] == cols[a] && r[b] == cols[b]);
                    } else if a < i && b == i {
                        assert(r[a] == cols[a] && r[b] == shrunk);
                    } else if a < i && b == i + 1 {
                        assert(r[a] == cols[a] && r[b] == cand);
                    } else if a < i {
                        assert(r[a] == cols[a] && r[b] == cols[b - 1]);
                    } else if a == i && b == i + 1 {
                        assert(r[a] == shrunk && r[b] == cand);
                    } else if a == i {
                        assert(r[a] == shrunk && r[b] == cols[b - 1]);
                        assert(cols[i + 1].wf());
                        assert(ex.end <= cols[i + 1].start);
                        if b - 1 > i + 1 {
                            assert(cols[i + 1].end <= cols[b - 1].start);
                        }
                    } else if a == i + 1 {
                        assert(r[a] == cand && r[b] == cols[b - 1]);
                        assert(cols[i + 1].wf());
                        assert(ex.end <= cols[i + 1].start);
                        if b - 1 > i + 1 {
                            assert(cols[i + 1].end <= cols[b - 1].start);
                        }
                    } else {
                        assert(r[a] == cols[a - 1] && r[b] == cols[b - 1]);
                    }
                }
            } else {
                assert forall|a: int, b: int| 0 <= a < b < r.len() implies (#[trigger] r[
                    a
                ]).end <= (#[trigger] r[b]).start by {
                    if a == i {
                        assert(r[a] == cand && r[b] == cols[b]);
                    } else if b == i {
                        assert(r[a] == cols[a] && r[b] == cand);
                    } else {
                        assert(r[a] == cols[a] && r[b] == cols[b]);
                    }
                }
            }
        } else if ex.start < cand.start && cand.end < ex.end {
            let shrunk = ColumnView { end: cand.start, windows: bump_all(ex.windows), ..ex };
            assert forall|a: int, b: int| 0 <= a < b < r.len() implies (#[trigger] r[a]).end <= (
            #[trigger] r[b]).start by {
                if a < i && b < i {
                    assert(r[a] == cols[a] && r[b] == cols[b]);
                } else if a < i && b == i {
                    assert(r[a] == cols[a] && r[b] == shrunk);
                } else if a < i && b == i + 1 {
                    assert(r[a] == cols[a] && r[b] == cand);
                } else if a < i {
                    assert(r[a] == cols[a] && r[b] == cols[b - 1]);
                } else if a == i && b == i + 1 {
                    assert(r[a] == shrunk && r[b] == cand);
                } else if a == i {
                    assert(r[a] == shrunk && r[b] == cols[b - 1]);
                    assert(cols[i + 1].wf());
                    assert(ex.end <= cols[i + 1].start);
                    if b - 1 > i + 1 {
                        assert(cols[i + 1].end <= cols[b - 1].start);
                    }
                } else if a == i + 1 {
                    assert(r[a] == cand && r[b] == cols[b - 1]);
                    assert(cols[i + 1].wf());
                    assert(ex.end <= cols[i + 1].start);
                    if b - 1 > i + 1 {
                        assert(cols[i + 1].end <= cols[b - 1].start);
                    }
                } else {
                    assert(r[a] == cols[a - 1] && r[b] == cols[b - 1]);
                }
            }
        } else if cand.start < ex.start && ex.end < cand.end {
            let shrunk = ColumnView { end: ex.start, windows: bump_all(cand.windows), ..cand };
            assert forall|a: int, b: int| 0 <= a < b < r.len() implies (#[trigger] r[a]).end <= (
            #[trigger] r[b]).start by {
                if a < i && b < i {
                    assert(r[a] == cols[a] && r[b] == cols[b]);
                } else if a < i && b == i {
                    assert(r[a] == cols[a] && r[b] == shrunk);
                } else if a < i {
                    assert(r[a] == cols[a] && r[b] == cols[b - 1]);
                } else if a == i {
                    assert(r[a] == shrunk && r[b] == cols[b - 1]);
                    if b - 1 > i {
                        assert(cols[i].end <= cols[b - 1].start);
                    }
                } else {
                    assert(r[a] == cols[a - 1] && r[b] == cols[b - 1]);
                }
            }
        } else {
        }
    }
}

/// Reconstruction from a valid pane list gives well-formed columns ordered
/// left to right with disjoint intervals, no more columns than panes, and
/// counters bounded by the number of panes plus one.
pub proof fn lemma_build_props(panes: Seq<WinView>)
    requires
        panes_wf(panes),
    ensures
        all_wf(build_columns(panes)),
        cols_ordered_disjoint(build_columns(panes)),
        counters_at_most(build_columns(panes), panes.len() as int + 1),
        build_columns(panes).len() <= panes.len(),
    decreases panes.len(),
{
    if panes.len() == 0 {
    } else {
        let prev = build_columns(panes.drop_last());
        let p = panes.last();
        assert(panes_wf(panes.drop_last()));
        lemma_build_props(panes.drop_last());
        assert forall|k: int| 0 <= k < prev.len() implies col_counters_at_most(
            #[trigger] prev[k],
            panes.len() as int,
        ) by {
            assert(col_counters_at_most(prev[k], panes.len() - 1 + 1));
        }
        if p.floating {
            assert forall|k: int| 0 <= k < prev.len() implies col_counters_at_most(
                #[trigger] prev[k],
                panes.len() as int + 1,
            ) by {
                assert(col_counters_at_most(prev[k], panes.len() as int));
            }
        } else {
            assert(col_of(p).wf());
            assert(col_counters_at_most(col_of(p), panes.len() as int));
            lemma_place_props(prev, col_of(p), 0, panes.len() as int);
            lemma_place_ordered(prev, col_of(p), 0);
        }
    }
}

/// Once the scan has passed the first `i` columns by the keep-scanning rule,
/// the outcome is the outcome of the scan started at `i`.
proof fn lemma_place_skip(cols: Seq<ColumnView>, cand: ColumnView, i: int)
    requires
        0 <= i <= cols.len(),
        forall|k: int| 0 <= k < i ==> (#[trigger] cols[k]).end <= cand.start,
    ensures
        place(cols, cand, 0) == place(cols, cand, i),
    decreases i,
{
    if i > 0 {
        lemma_place_skip(cols, cand, i - 1);
        assert(place(cols, cand, i - 1) == place(cols, cand, i));
    }
}

/// Where the scan decided to put the candidate.
enum Placement {
    /// No rule matched before the end: append past the right end.
    Append,
    /// Insert the candidate, as it stands, before this index.
    Before(usize),
    /// The column at this index absorbs the candidate.
    Merge(usize),
    /// Shared right edge: cut the column at this index and put the candidate
    /// after it.
    SharedEnd(usize),
    /// Candidate strictly inside the column at this index: cut that column
    /// and put the candidate after it.
    SplitExisting(usize),
    /// Column strictly inside the candidate: cut the candidate and put it
    /// before this index.
    TruncateCand(usize),
    /// Ambiguous overlap: the candidate is dropped.
    Drop,
}

/// What a placement does to the column sequence.
spec fn apply_placement(cols: Seq<ColumnView>, cand: ColumnView, p: Placement) -> Seq<ColumnView> {
    match p {
        Placement::Append => cols.push(cand),
        Placement::Before(j) => cols.insert(j as int, cand),
        Placement::Merge(j) => {
            let merged = merge_spec(cols[j as int], cand);
            let capped = if j as int + 1 < cols.len() && merged.end > cols[j as int + 1].start {
                ColumnView { end: cols[j as int + 1].start, ..merged }
            } else {
                merged
            };
            cols.update(j as int, capped)
        },
        Placement::SharedEnd(j) => {
            let ex = cols[j as int];
            let shrunk = ColumnView { end: cand.start, windows: bump_all(ex.windows), ..ex };
            if shrunk.start < shrunk.end {
                cols.update(j as int, shrunk).insert(j as int + 1, cand)
            } else {
                cols.update(j as int, cand)
            }
        },
        Placement::SplitExisting(j) => {
            let ex = cols[j as int];
            let shrunk = ColumnView { end: cand.start, windows: bump_all(ex.windows), ..ex };
            cols.update(j as int, shrunk).insert(j as int + 1, cand)
        },
        Placement::TruncateCand(j) => {
            let ex = cols[j as int];
            let shrunk = ColumnView { end: ex.start, windows: bump_all(cand.windows), ..cand };
            cols.insert(j as int, shrunk)
        },
        Placement::Drop => cols,
    }
}

/// The indices a placement refers to are in range, and the facts the applier
/// needs about the column it refers to hold.
spec fn placement_valid(cols: Seq<ColumnView>, cand: ColumnView, p: Placement) -> bool {
    match p {
        Placement::Append => true,
        Placement::Before(j) => j < cols.len(),
        Placement::Merge(j) => j < cols.len(),
        Placement::SharedEnd(j) => j < cols.len() && cols[j as int].end == cand.end,
        Placement::SplitExisting(j) => j < cols.len() && cols[j as int].start < cand.start,
        Placement::TruncateCand(j) => j < cols.len() && cand.start < cols[j as int].start,
        Placement::Drop => true,
    }
}

/// Scan the columns left to right and decide, by the ordered tie-break
/// rules, where the candidate goes.
fn find_placement(columns: &Vec<WinColumn>, cand: &WinColumn) -> (p: Placement)
    ensures
        placement_valid(cols_view(columns@), cand@, p),
        apply_placement(cols_view(columns@), cand@, p) == place(cols_view(columns@), cand@, 0),
{
    let ghost cv = cols_view(columns@);
    let ghost cd = cand@;
    let m = columns.len();
    let mut j: usize = 0;
    while j < m
        invariant
            j <= m,
            m == columns.len(),
            cv == cols_view(columns@),
            cd == cand@,
            forall|k: int| 0 <= k < j ==> (#[trigger] cv[k]).end <= cd.start,
        decreases m - j,
    {
        proof {
            assert(cv[j as int] == columns@[j as int]@);
        }
        let ex_start = columns[j].start;
        let ex_end = columns[j].end;
        if ex_end <= cand.start {
            // Not overlapping yet; keep scanning right.
            j = j + 1;
        } else {
            proof {
                lemma_place_skip(cv, cd, j as int);
            }
            if cand.end <= ex_start {
                return Placement::Before(j);
            } else if ex_start == cand.start {
                return Placement::Merge(j);
            } else if ex_end == cand.end {
                return Placement::SharedEnd(j);
            } else if ex_start < cand.start && cand.end < ex_end {
                return Placement::SplitExisting(j);
            } else if cand.start < ex_start && ex_end < cand.end {
                return Placement::TruncateCand(j);
            } else {
                return Placement::Drop;
            }
        }
    }
    proof {
        lemma_place_skip(cv, cd, m as int);
    }
    Placement::Append
}

/// Reconstruct the ordered column sequence and the overall bounding box from
/// the panes of the current view, processing the panes in the order given.
/// Floating panes count toward the bounding box but take no column.
#[verifier::rlimit(100)]
pub fn calculate_columns(wins: Vec<Win>) -> (r: (Vec<WinColumn>, i64, i64))
    requires
        wins@.len() <= MAX_PANES,
        panes_wf(wins_view(wins@)),
    ensures
        cols_view(r.0@) == build_columns(wins_view(wins@)),
        all_wf(cols_view(r.0@)),
        cols_ordered_disjoint(cols_view(r.0@)),
        r.1 == bbox_width(wins_view(wins@)),
        r.2 == bbox_height(wins_view(wins@)),
        0 <= r.1 <= GEOM_MAX,
        0 <= r.2 <= GEOM_MAX,
{
    let ghost all = wins_view(wins@);
    let n = wins.len();
    let mut rest = wins;
    let mut columns: Vec<WinColumn> = Vec::new();
    let mut width: i64 = 0;
    let mut height: i64 = 0;
    let mut i: usize = 0;
    proof {
        assert(wins_view(rest@) =~= all.subrange(0, n as int));
        assert(all.subrange(0, 0) =~= Seq::<WinView>::empty());
        assert(cols_view(columns@) =~= Seq::<ColumnView>::empty());
    }
    while i < n
        invariant
            i <= n,
            n <= MAX_PANES,
            rest@.len() == n - i,
            all.len() == n,
            panes_wf(all),
            wins_view(rest@) == all.subrange(i as int, n as int),
            cols_view(columns@) == build_columns(all.subrange(0, i as int)),
            width == bbox_width(all.subrange(0, i as int)),
            height == bbox_height(all.subrange(0, i as int)),
            0 <= width <= GEOM_MAX,
            0 <= height <= GEOM_MAX,
        decreases n - i,
    {
        let ghost prefix = all.subrange(0, i as int);
        let ghost prefix1 = all.subrange(0, i as int + 1);
        proof {
            assert(wins_view(rest@)[0] == rest@[0]@);
            assert(all[i as int] == rest@[0]@);
            assert(all[i as int].wf());
            assert(prefix1.drop_last() =~= prefix);
            assert(prefix1.last() == all[i as int]);
        }
        let ghost rest0 = rest@;
        let w = rest.remove(0);
        proof {
            assert(rest@ =~= rest0.subrange(1, rest0.len() as int));
            assert forall|k: int| 0 <= k < rest@.len() implies wins_view(rest@)[k] == all[i as int
                + 1 + k] by {
                assert(rest@[k] == rest0[k + 1]);
                assert(wins_view(rest0)[k + 1] == rest0[k + 1]@);
                assert(wins_view(rest0)[k + 1] == all.subrange(i as int, n as int)[k + 1]);
            }
            assert(wins_view(rest@) =~= all.subrange(i as int + 1, n as int));
        }
        let cw = w.col + w.width;
        if cw > width {
            width = cw;
        }
        let rh = w.row + w.height;
        if rh > height {
            height = rh;
        }
        let floating = w.is_floating();
        if !floating {
            let mut cand = WinColumn::from_win(w);
            let ghost cv = cols_view(columns@);
            let ghost cd = cand@;
            proof {
                assert(cd == col_of(all[i as int]));
                lemma_build_props(prefix);
                assert(counters_at_most(cv, i as int + 1));
                assert(col_counters_at_most(cd, i as int + 1));
            }
            proof {
                assert forall|k: int| 0 <= k < cd.windows.len() implies (#[trigger] cd.windows[k]).num_columns
                    < i64::MAX by {
                    assert(col_counters_at_most(cd, i as int + 1));
                }
            }
            let p = find_placement(&columns, &cand);
            match p {
                Placement::Append => {
                    columns.push(cand);
                },
                Placement::Before(j) => {
                    columns.insert(j, cand);
                },
                Placement::Merge(j) => {
                    let mut ex = columns.remove(j);
                    proof {
                        assert(ex@ == cv[j as int]);
                        assert forall|k: int| 0 <= k < ex@.windows.len() implies (#[trigger] ex@.windows[k]).num_columns
                            < i64::MAX by {
                            assert(col_counters_at_most(ex@, i as int + 1));
                        }
                    }
                    ex.add_other(&mut cand);
                    proof {
                        assert(ex@ == crate::column::merge_spec(cv[j as int], cd));
                        assert(columns@.len() == cv.len() - 1);
                        assert(j < columns@.len() ==> columns@[j as int]@ == cv[j as int + 1]);
                    }
                    // A merge that widened the interval past the following
                    // column is cut back at that column's start, so the
                    // sequence stays ordered.
                    if j < columns.len() {
                        let next_start = columns[j].start;
                        if ex.end > next_start {
                            ex.end = next_start;
                        }
                    }
                    columns.insert(j, ex);
                },
                Placement::SharedEnd(j) => {
                    let mut ex = columns.remove(j);
                    proof {
                        assert(ex@ == cv[j as int]);
                        assert forall|k: int| 0 <= k < ex@.windows.len() implies (#[trigger] ex@.windows[k]).num_columns
                            < i64::MAX by {
                            assert(col_counters_at_most(ex@, i as int + 1));
                        }
                    }
                    ex.end = cand.start;
                    ex.increase_wins_columns();
                    if ex.start < ex.end {
                        columns.insert(j, ex);
                        columns.insert(j + 1, cand);
                    } else {
                        columns.insert(j, cand);
                    }
                },
                Placement::SplitExisting(j) => {
                    let mut ex = columns.remove(j);
                    proof {
                        assert(ex@ == cv[j as int]);
                        assert forall|k: int| 0 <= k < ex@.windows.len() implies (#[trigger] ex@.windows[k]).num_columns
                            < i64::MAX by {
                            assert(col_counters_at_most(ex@, i as int + 1));
                        }
                    }
                    ex.end = cand.start;
                    ex.increase_wins_columns();
                    columns.insert(j, ex);
                    columns.insert(j + 1, cand);
                },
                Placement::TruncateCand(j) => {
                    let ex_start = columns[j].start;
                    cand.end = ex_start;
                    cand.increase_wins_columns();
                    columns.insert(j, cand);
                },
                Placement::Drop => {},
            }
            proof {
                assert(cols_view(columns@) =~= apply_placement(cv, cd, p));
                assert(cols_view(columns@) == place(cv, cd, 0));
                assert(build_columns(prefix1) == place(build_columns(prefix), col_of(all[i as int]), 0));
            }
        }
        i = i + 1;
    }
    proof {
        assert(all.subrange(0, n as int) =~= all);
        lemma_build_props(all);
    }
    (columns, width, height)
}

} // verus!
