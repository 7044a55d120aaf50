//! The column model: one editor pane and one reconstructed vertical column.
//!
//! A pane only reports its screen rectangle in symbol units; columns are
//! half-open horizontal intervals `[start, end)` inferred from those
//! rectangles. Merging two columns follows four exhaustive cases on the
//! relationship of their intervals.

use vstd::prelude::*;

verus! {

/// Largest symbol-unit coordinate the library accepts. This is a machine
/// limit: it keeps every pixel computation inside `i64`.
pub const GEOM_MAX: i64 = 0x1_0000_0000;

/// Content width used when a pane reports none.
pub const FALLBACK_TEXTWIDTH: i64 = 80;

/// Mathematical model of one pane.
pub struct WinView {
    /// The editor's handle value for this pane.
    pub id: u64,
    /// Top row of the pane, in symbol units.
    pub row: int,
    /// Leftmost column of the pane, in symbol units.
    pub col: int,
    /// Width of the pane, in symbol units.
    pub width: int,
    /// Height of the pane, in symbol units.
    pub height: int,
    /// The pane's content-width setting, if it reports one.
    pub textwidth: Option<int>,
    /// Whether the pane floats outside the column grid.
    pub floating: bool,
    /// How many reconstructed columns the pane has been folded into.
    pub num_columns: int,
}

impl WinView {
    /// Geometry is well formed: non-negative, at least one symbol wide, and
    /// small enough that all later arithmetic stays in range.
    pub open spec fn wf(self) -> bool {
        &&& 0 <= self.row
        &&& 0 <= self.col
        &&& 1 <= self.width
        &&& 0 <= self.height
        &&& self.col + self.width <= GEOM_MAX
        &&& self.row + self.height <= GEOM_MAX
        &&& match self.textwidth {
            Some(t) => 0 <= t <= GEOM_MAX,
            None => true,
        }
        &&& 1 <= self.num_columns
    }

    /// The half-open horizontal interval the pane covers.
    pub open spec fn interval(self) -> (int, int) {
        (self.col, self.col + self.width)
    }
}

/// The content width a pane contributes to its column's heuristic.
pub open spec fn content_width(w: WinView) -> int {
    match w.textwidth {
        Some(t) => t,
        None => FALLBACK_TEXTWIDTH as int,
    }
}

/// One membership step: the pane now also belongs to one more column.
pub open spec fn bump_win(w: WinView) -> WinView {
    WinView { num_columns: w.num_columns + 1, ..w }
}

/// Every pane of the sequence folded into one more column.
pub open spec fn bump_all(ws: Seq<WinView>) -> Seq<WinView> {
    ws.map_values(|w: WinView| bump_win(w))
}

/// The running maximum of content widths over the panes that belong to
/// exactly one column; panes folded into several columns are skipped because
/// their single-column width cannot be attributed reliably.
pub open spec fn eligible_width_fold(ws: Seq<WinView>) -> int
    decreases ws.len(),
{
    if ws.len() == 0 {
        0
    } else {
        let rest = eligible_width_fold(ws.drop_last());
        let w = ws.last();
        if w.num_columns > 1 {
            rest
        } else if content_width(w) > rest {
            content_width(w)
        } else {
            rest
        }
    }
}

/// Mathematical model of one column.
pub struct ColumnView {
    /// Left edge of the column's interval, in symbol units.
    pub start: int,
    /// Right edge (exclusive) of the column's interval, in symbol units.
    pub end: int,
    /// The panes assigned to this column, in assignment order.
    pub windows: Seq<WinView>,
}

impl ColumnView {
    /// A retained column is a non-degenerate interval in range, over well
    /// formed panes.
    pub open spec fn wf(self) -> bool {
        &&& 0 <= self.start
        &&& self.start < self.end
        &&& self.end <= GEOM_MAX
        &&& forall|i: int| 0 <= i < self.windows.len() ==> #[trigger] self.windows[i].wf()
    }

    /// The column's content-width heuristic: the floor value or the widest
    /// eligible pane, whichever is larger.
    pub open spec fn textwidth_spec(self) -> int {
        if eligible_width_fold(self.windows) > FALLBACK_TEXTWIDTH as int {
            eligible_width_fold(self.windows)
        } else {
            FALLBACK_TEXTWIDTH as int
        }
    }
}

/// Merging a column `other` into a column `s`, by the four exhaustive cases
/// on their intervals. In every case `other`'s panes are appended to `s`'s.
pub open spec fn merge_spec(s: ColumnView, o: ColumnView) -> ColumnView {
    if s.start == o.start && s.end == o.end {
        // Identical intervals: nothing to infer.
        ColumnView { windows: s.windows + o.windows, ..s }
    } else if o.start <= s.start && s.end <= o.end {
        // `other` contains `s`: `s` inherits the wider interval, and its
        // panes now also belong to that wider column.
        ColumnView { start: o.start, end: o.end, windows: bump_all(s.windows) + o.windows }
    } else if s.start <= o.start && o.end <= s.end {
        // `s` contains `other`: `other`'s panes join the wider column.
        ColumnView { windows: s.windows + bump_all(o.windows), ..s }
    } else {
        // Any other overlap cannot be attributed; leave the intervals alone.
        ColumnView { windows: s.windows + o.windows, ..s }
    }
}

/// One editor pane, as the reconstruction sees it: its raw geometry, its
/// content-width setting, the `relative` attribute of its window
/// configuration (non-empty for floating panes), and the membership counter.
pub struct Win {
    /// The editor's handle value for this pane.
    pub id: u64,
    /// Top row of the pane, in symbol units.
    pub row: i64,
    /// Leftmost column of the pane, in symbol units.
    pub col: i64,
    /// Width of the pane, in symbol units.
    pub width: i64,
    /// Height of the pane, in symbol units.
    pub height: i64,
    /// The pane's content-width setting, if it reports one.
    pub textwidth: Option<i64>,
    /// The `relative` attribute of the pane's configuration; a floating pane
    /// carries a non-empty value here.
    pub relative: String,
    /// How many reconstructed columns the pane has been folded into.
    pub num_columns: i64,
}

impl View for Win {
    type V = WinView;

    open spec fn view(&self) -> WinView {
        WinView {
            id: self.id,
            row: self.row as int,
            col: self.col as int,
            width: self.width as int,
            height: self.height as int,
            textwidth: match self.textwidth {
                Some(t) => Some(t as int),
                None => None,
            },
            floating: self.relative@.len() != 0,
            num_columns: self.num_columns as int,
        }
    }
}

impl Win {
    /// A fresh pane belongs to exactly one column.
    pub fn new(
        id: u64,
        row: i64,
        col: i64,
        width: i64,
        height: i64,
        textwidth: Option<i64>,
        relative: String,
    ) -> (w: Win)
        ensures
            w@ == (WinView {
                id,
                row: row as int,
                col: col as int,
                width: width as int,
                height: height as int,
                textwidth: match textwidth {
                    Some(t) => Some(t as int),
                    None => None,
                },
                floating: relative@.len() != 0,
                num_columns: 1,
            }),
    {
        Win { id, row, col, width, height, textwidth, relative, num_columns: 1 }
    }

    /// Record that the pane has been folded into one more column.
    pub fn add_to_column(&mut self)
        requires
            old(self).num_columns < i64::MAX,
        ensures
            final(self)@ == bump_win(old(self)@),
    {
        self.num_columns = self.num_columns + 1;
    }

    /// How many reconstructed columns this pane has been folded into.
    pub fn get_columns(&self) -> (n: i64)
        ensures
            n as int == self@.num_columns,
    {
        self.num_columns
    }

    /// Whether the pane floats outside the column grid: its configuration's
    /// `relative` attribute is non-empty.
    pub fn is_floating(&self) -> (r: bool)
        ensures
            r == self@.floating,
    {
        !self.relative.as_str().is_empty()
    }
}

/// One reconstructed vertical column: a half-open interval `[start, end)` in
/// symbol units and the panes assigned to it.
pub struct WinColumn {
    /// Left edge of the column's interval, in symbol units.
    pub start: i64,
    /// Right edge (exclusive) of the column's interval, in symbol units.
    pub end: i64,
    /// The panes assigned to this column, in assignment order.
    pub windows: Vec<Win>,
}

impl View for WinColumn {
    type V = ColumnView;

    open spec fn view(&self) -> ColumnView {
        ColumnView {
            start: self.start as int,
            end: self.end as int,
            windows: self.windows@.map_values(|w: Win| w@),
        }
    }
}

impl WinColumn {
    /// The column a single pane spans on its own: `[col, col + width)`.
    pub fn from_win(win: Win) -> (c: WinColumn)
        requires
            win@.wf(),
        ensures
            c@ == (ColumnView {
                start: win@.col,
                end: win@.col + win@.width,
                windows: seq![win@],
            }),
    {
        let start = win.col;
        let end = win.col + win.width;
        let mut windows: Vec<Win> = Vec::new();
        windows.push(win);
        let c = WinColumn { start, end, windows };
        proof {
            assert(c@.windows =~= seq![win@]);
        }
        c
    }

    /// The panes assigned to this column, in assignment order.
    pub fn get_windows(&self) -> (ws: &Vec<Win>)
        ensures
            ws@.map_values(|w: Win| w@) == self@.windows,
    {
        &self.windows
    }

    /// Append one more pane to the column.
    pub fn add_win(&mut self, win: Win)
        ensures
            final(self)@ == (ColumnView {
                windows: old(self)@.windows.push(win@),
                ..old(self)@
            }),
    {
        self.windows.push(win);
        proof {
            assert(self@.windows =~= old(self)@.windows.push(win@));
        }
    }

    /// Fold every pane of the column into one more column.
    pub fn increase_wins_columns(&mut self)
        requires
            forall|i: int|
                0 <= i < old(self)@.windows.len() ==> #[trigger] old(
                    self,
                )@.windows[i].num_columns < i64::MAX,
        ensures
            final(self)@ == (ColumnView { windows: bump_all(old(self)@.windows), ..old(self)@ }),
    {
        let n = self.windows.len();
        let mut i: usize = 0;
        while i < n
            invariant
                n == self.windows.len(),
                i <= n,
                self.start == old(self).start,
                self.end == old(self).end,
                forall|j: int|
                    0 <= j < n ==> #[trigger] old(self)@.windows[j].num_columns < i64::MAX,
                forall|j: int|
                    0 <= j < i ==> #[trigger] self.windows@[j]@ == bump_win(old(self)@.windows[j]),
                forall|j: int| i <= j < n ==> #[trigger] self.windows@[j]@ == old(self)@.windows[j],
            decreases n - i,
        {
            proof {
                assert(self.windows@[i as int]@ == old(self)@.windows[i as int]);
            }
            let prev = self.windows[i].num_columns;
            self.windows[i].num_columns = prev + 1;
            i = i + 1;
        }
        proof {
            assert(self@.windows =~= bump_all(old(self)@.windows));
        }
    }

    /// Merge another column into this one, by the four exhaustive interval
    /// cases; `other` is drained of its panes in every case.
    pub fn add_other(&mut self, other: &mut WinColumn)
        requires
            forall|i: int|
                0 <= i < old(self)@.windows.len() ==> #[trigger] old(
                    self,
                )@.windows[i].num_columns < i64::MAX,
            forall|i: int|
                0 <= i < old(other)@.windows.len() ==> #[trigger] old(
                    other,
                )@.windows[i].num_columns < i64::MAX,
        ensures
            final(self)@ == merge_spec(old(self)@, old(other)@),
            final(other)@.windows.len() == 0,
            final(other).start == old(other).start,
            final(other).end == old(other).end,
    {
        if self.start == other.start && self.end == other.end {
            // Identical intervals: nothing to infer.
        } else if other.start <= self.start && self.end <= other.end {
            // The other column contains this one: inherit the wider interval
            // and count the extra column for the panes already here.
            self.start = other.start;
            self.end = other.end;
            proof {
                assert(self@.windows == old(self)@.windows);
            }
            self.increase_wins_columns();
        } else if self.start <= other.start && other.end <= self.end {
            // This column contains the other: its panes join a wider column.
            other.increase_wins_columns();
        } else {
            // Any other overlap cannot be attributed; leave intervals alone.
        }
        self.windows.append(&mut other.windows);
        proof {
            assert(self@.windows =~= merge_spec(old(self)@, old(other)@).windows);
            assert(other@.windows =~= Seq::<WinView>::empty());
        }
    }

    /// The column's content-width heuristic: the widest content width among
    /// panes that belong to exactly one column, with a floor of 80.
    pub fn textwidth(&self) -> (tw: i64)
        requires
            self@.wf(),
        ensures
            tw as int == self@.textwidth_spec(),
            FALLBACK_TEXTWIDTH <= tw <= GEOM_MAX,
    {
        let n = self.windows.len();
        let mut acc: i64 = 0;
        let mut i: usize = 0;
        while i < n
            invariant
                self@.wf(),
                n == self.windows.len(),
                i <= n,
                acc as int == eligible_width_fold(self@.windows.subrange(0, i as int)),
                0 <= acc <= GEOM_MAX,
            decreases n - i,
        {
            proof {
                assert(self@.windows[i as int].wf());
            }
            let w = &self.windows[i];
            if w.get_columns() <= 1 {
                let cw = match w.textwidth {
                    Some(t) => t,
                    None => FALLBACK_TEXTWIDTH,
                };
                if cw > acc {
                    acc = cw;
                }
            }
            proof {
                assert(self@.windows.subrange(0, i + 1int).drop_last() =~= self@.windows.subrange(
                    0,
                    i as int,
                ));
                assert(self@.windows.subrange(0, i + 1int).last() == self@.windows[i as int]);
            }
            i = i + 1;
        }
        proof {
            assert(self@.windows.subrange(0, n as int) =~= self@.windows);
        }
        if acc > FALLBACK_TEXTWIDTH {
            acc
        } else {
            FALLBACK_TEXTWIDTH
        }
    }
}

/// The floor and the exclusion rule of the heuristic: a column where every
/// pane either spans several columns or reports a content width of at most 80
/// has a content width of exactly 80.
pub proof fn lemma_textwidth_floor(c: ColumnView)
    requires
        forall|i: int|
            0 <= i < c.windows.len() ==> (#[trigger] c.windows[i].num_columns > 1 || content_width(
                c.windows[i],
            ) <= FALLBACK_TEXTWIDTH as int),
    ensures
        c.textwidth_spec() == FALLBACK_TEXTWIDTH as int,
    decreases c.windows.len(),
{
    if c.windows.len() == 0 {
    } else {
        let shorter = ColumnView { windows: c.windows.drop_last(), ..c };
        assert(forall|i: int|
            0 <= i < shorter.windows.len() ==> c.windows[i] == #[trigger] shorter.windows[i]);
        lemma_textwidth_floor(shorter);
    }
}

} // verus!
