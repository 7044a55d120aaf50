//! The editor session model: the reconstructed column layout plus the width,
//! scroll-offset and navigation calculations made from it.
//!
//! The connection to the live editor and to the outer manager stays outside
//! the library; it feeds pane geometry in and carries the computed widths,
//! offsets and commands out.

use vstd::prelude::*;
use vstd::string::StringExecFns;

use crate::column::{Win, WinColumn, ColumnView, GEOM_MAX};
use crate::layout::{
    all_wf, bbox_height, bbox_width, build_columns, calculate_columns, cols_ordered_disjoint,
    cols_view, panes_wf, wins_view, MAX_PANES,
};
use crate::niri::{NiriAction, NiriActionDirection, NiriWindow};
use crate::Direction;

verus! {

/// Denominator of the width multiplier: the multiplier is stored in
/// thousandths.
pub const KOEFF_DEN: u64 = 1000;

/// The default width multiplier, in thousandths: 1.2.
pub const KOEFF_DEFAULT: u64 = 1200;

/// Largest accepted width multiplier, in thousandths. A machine limit: it
/// keeps the desired width inside `i64`.
pub const KOEFF_MAX: u64 = 1000000;

/// Numerator of the fixed pixels-per-symbol approximation: one symbol cell
/// is 8.0093 pixels, stored as a ratio.
pub const PIXEL_NUM: i64 = 80093;

/// Denominator of the fixed pixels-per-symbol approximation.
pub const PIXEL_DEN: i64 = 10000;

/// Largest pixel coordinate or view offset the library accepts. A machine
/// limit: it keeps offset arithmetic inside `i64`.
pub const OFFSET_MAX: i64 = 0x1000_0000_0000_0000;

/// Largest value the desired symbol width can take under the limits above.
pub const DESIRED_SYMBOL_MAX: i64 = 1000 * 65536 * 4294967296;

/// Division rounding to the nearest integer, for a non-negative numerator
/// and a positive divisor.
pub open spec fn round_div(n: int, d: int) -> int {
    (n + d / 2) / d
}

/// Symbol units converted to display pixels, rounded to nearest.
pub open spec fn px_of_symbols(sym: int) -> int {
    round_div(sym * PIXEL_NUM, PIXEL_DEN as int)
}

/// The sum of the columns' content-width heuristics.
pub open spec fn total_textwidth(cols: Seq<ColumnView>) -> int
    decreases cols.len(),
{
    if cols.len() == 0 {
        0
    } else {
        total_textwidth(cols.drop_last()) + cols.last().textwidth_spec()
    }
}

/// The desired total width in symbol units: the width multiplier (in
/// thousandths) applied to every column's content width, rounded to nearest.
pub open spec fn desired_symbol_width_spec(cols: Seq<ColumnView>, koeff: int) -> int {
    round_div(koeff * total_textwidth(cols), KOEFF_DEN as int)
}

/// The current total width in symbol units: the rightmost column edge.
pub open spec fn current_symbol_width_spec(cols: Seq<ColumnView>) -> int
    decreases cols.len(),
{
    if cols.len() == 0 {
        0
    } else {
        let rest = current_symbol_width_spec(cols.drop_last());
        if cols.last().end > rest {
            cols.last().end
        } else {
            rest
        }
    }
}

/// The view-offset correction for a viewport `[v, v + m)` and a focused-pane
/// pixel interval `[s, e)`: scroll right to reveal the trailing edge, else
/// scroll left to reveal the leading edge, else nothing.
pub open spec fn view_offset_correction_spec(v: int, m: int, s: int, e: int) -> Option<int> {
    if v + m < e {
        Some(e - m)
    } else if v > s {
        Some(s)
    } else {
        None
    }
}

/// The focused pane's pixel interval starts one symbol before its left edge,
/// clamped at zero.
pub open spec fn pane_pixel_start(col: int) -> int {
    px_of_symbols(if col > 0 { col - 1 } else { 0 })
}

/// An in-editor command or an action escalated to the outer manager.
pub enum NavCommand {
    /// Send these keys to the editor.
    EditorKeys(String),
    /// Ask the outer manager to perform this action.
    Outer(NiriAction),
}

/// One live editor session's reconstructed state: its columns, the overall
/// bounding box, the width multiplier and the outer manager's window for it.
pub struct Vim {
    /// The reconstructed columns, ordered left to right.
    pub columns: Vec<WinColumn>,
    /// The width multiplier, in thousandths.
    pub column_width_koeff: u64,
    /// Overall bounding width over all panes, in symbol units.
    pub width: i64,
    /// Overall bounding height over all panes, in symbol units.
    pub height: i64,
    /// The outer manager's window holding this editor.
    pub niri_window: NiriWindow,
}

impl Vim {
    /// The session's state is well formed: columns well formed and not more
    /// numerous than the panes they came from, multiplier and geometry in
    /// range.
    pub open spec fn wf(self) -> bool {
        &&& all_wf(cols_view(self.columns@))
        &&& cols_ordered_disjoint(cols_view(self.columns@))
        &&& self.columns@.len() <= MAX_PANES
        &&& self.column_width_koeff <= KOEFF_MAX
        &&& 0 <= self.width <= GEOM_MAX
        &&& 0 <= self.height <= GEOM_MAX
        &&& -OFFSET_MAX <= self.niri_window.view_offset <= OFFSET_MAX
    }

    /// Reconstruct a session from the panes of the editor's current view and
    /// the outer manager's window for it.
    pub fn new(wins: Vec<Win>, niri_window: NiriWindow) -> (v: Vim)
        requires
            wins@.len() <= MAX_PANES,
            panes_wf(wins_view(wins@)),
            -OFFSET_MAX <= niri_window.view_offset <= OFFSET_MAX,
        ensures
            cols_view(v.columns@) == build_columns(wins_view(wins@)),
            v.width == bbox_width(wins_view(wins@)),
            v.height == bbox_height(wins_view(wins@)),
            v.column_width_koeff == KOEFF_DEFAULT,
            v.niri_window == niri_window,
            v.wf(),
    {
        let ghost pv = wins_view(wins@);
        let ghost nwins = wins@.len();
        let (columns, width, height) = calculate_columns(wins);
        proof {
            crate::layout::lemma_build_props(pv);
        }
        Vim { columns, column_width_koeff: KOEFF_DEFAULT, width, height, niri_window }
    }

    /// The reconstructed columns, ordered left to right.
    pub fn get_columns(&self) -> (r: &Vec<WinColumn>)
        ensures
            r == &self.columns,
    {
        &self.columns
    }

    /// The reconstructed columns, for callers that adjust them.
    pub fn get_columns_mut(&mut self) -> (r: &mut Vec<WinColumn>)
        ensures
            *r == old(self).columns,
            final(self).columns == *final(r),
            final(self).column_width_koeff == old(self).column_width_koeff,
            final(self).width == old(self).width,
            final(self).height == old(self).height,
            final(self).niri_window == old(self).niri_window,
    {
        &mut self.columns
    }

    /// How many columns were reconstructed.
    pub fn get_num_columns(&self) -> (r: Result<usize, crate::Error>)
        ensures
            r == Ok::<usize, crate::Error>(self.columns@.len() as usize),
    {
        Ok(self.columns.len())
    }

    /// The fixed pixels-per-symbol approximation, as a ratio.
    pub fn get_pixels_for_symbol(&self) -> (r: (i64, i64))
        ensures
            r == (PIXEL_NUM, PIXEL_DEN),
    {
        (PIXEL_NUM, PIXEL_DEN)
    }

    /// Set the width multiplier, in thousandths.
    pub fn set_column_width_koeff(&mut self, koeff: u64)
        requires
            koeff <= KOEFF_MAX,
        ensures
            *final(self) == (Vim { column_width_koeff: koeff, ..*old(self) }),
    {
        self.column_width_koeff = koeff;
    }

    /// The width multiplier, in thousandths.
    pub fn get_column_width_koeff(&self) -> (r: u64)
        ensures
            r == self.column_width_koeff,
    {
        self.column_width_koeff
    }

    /// The desired total width in symbol units: the multiplier applied to
    /// every column's content width, rounded to nearest.
    pub fn get_desired_symbol_width(&self) -> (r: i64)
        requires
            self.wf(),
        ensures
            r as int == desired_symbol_width_spec(cols_view(self.columns@), self.column_width_koeff as int),
            0 <= r <= DESIRED_SYMBOL_MAX,
    {
        let ghost cv = cols_view(self.columns@);
        let n = self.columns.len();
        let mut total: i64 = 0;
        let mut i: usize = 0;
        proof {
            assert(cv.subrange(0, 0) =~= Seq::<ColumnView>::empty());
        }
        while i < n
            invariant
                i <= n,
                n == self.columns@.len(),
                n <= MAX_PANES,
                all_wf(cv),
                cv == cols_view(self.columns@),
                total as int == total_textwidth(cv.subrange(0, i as int)),
                0 <= total <= i as int * (GEOM_MAX as int),
            decreases n - i,
        {
            proof {
                assert(cv[i as int] == self.columns@[i as int]@);
                assert(cv[i as int].wf());
                assert(cv.subrange(0, i as int + 1).drop_last() =~= cv.subrange(0, i as int));
                assert(cv.subrange(0, i as int + 1).last() == cv[i as int]);
            }
            let tw = self.columns[i].textwidth();
            total = total + tw;
            i = i + 1;
        }
        proof {
            assert(cv.subrange(0, n as int) =~= cv);
        }
        let koeff = self.column_width_koeff;
        proof {
            assert(koeff as int * total as int <= 1000000 * (65536 * 4294967296)) by (nonlinear_arith)
                requires
                    0 <= koeff as int <= 1000000,
                    0 <= total as int <= 65536 * 4294967296,
            ;
            assert(0 <= koeff as int * total as int) by (nonlinear_arith)
                requires
                    0 <= koeff as int,
                    0 <= total as int,
            ;
        }
        let num: u128 = (koeff as u128) * (total as u128) + 500;
        let q: u128 = num / 1000;
        proof {
            vstd::arithmetic::div_mod::lemma_div_is_ordered(
                num as int,
                (1000000 * (65536 * 4294967296) + 500) as int,
                1000,
            );
            vstd::arithmetic::div_mod::lemma_div_is_ordered(0, num as int, 1000);
        }
        q as i64
    }

    /// The desired total width in display pixels.
    pub fn get_desired_pixel_width(&self) -> (r: i64)
        requires
            self.wf(),
        ensures
            r as int == px_of_symbols(
                desired_symbol_width_spec(cols_view(self.columns@), self.column_width_koeff as int),
            ),
            0 <= r,
    {
        let sym = self.get_desired_symbol_width();
        proof {
            assert(sym as int * (PIXEL_NUM as int) <= (1000 * 65536 * 4294967296) * 80093)
                by (nonlinear_arith)
                requires
                    0 <= sym as int <= 1000 * 65536 * 4294967296,
            ;
            assert(0 <= sym as int * (PIXEL_NUM as int)) by (nonlinear_arith)
                requires
                    0 <= sym as int,
            ;
        }
        let num: u128 = (sym as u128) * (PIXEL_NUM as u128) + 5000;
        let q: u128 = num / 10000;
        proof {
            vstd::arithmetic::div_mod::lemma_div_is_ordered(
                num as int,
                ((1000 * 65536 * 4294967296) * 80093 + 5000) as int,
                10000,
            );
            vstd::arithmetic::div_mod::lemma_div_is_ordered(0, num as int, 10000);
        }
        q as i64
    }

    /// The current total width in symbol units: the rightmost column edge.
    pub fn get_current_symbol_width(&self) -> (r: i64)
        requires
            self.wf(),
        ensures
            r as int == current_symbol_width_spec(cols_view(self.columns@)),
            0 <= r <= GEOM_MAX,
    {
        let ghost cv = cols_view(self.columns@);
        let n = self.columns.len();
        let mut last: i64 = 0;
        let mut i: usize = 0;
        proof {
            assert(cv.subrange(0, 0) =~= Seq::<ColumnView>::empty());
        }
        while i < n
            invariant
                i <= n,
                n == self.columns@.len(),
                all_wf(cv),
                cv == cols_view(self.columns@),
                last as int == current_symbol_width_spec(cv.subrange(0, i as int)),
                0 <= last <= GEOM_MAX,
            decreases n - i,
        {
            proof {
                assert(cv[i as int] == self.columns@[i as int]@);
                assert(cv[i as int].wf());
                assert(cv.subrange(0, i as int + 1).drop_last() =~= cv.subrange(0, i as int));
                assert(cv.subrange(0, i as int + 1).last() == cv[i as int]);
            }
            let e = self.columns[i].end;
            if e > last {
                last = e;
            }
            i = i + 1;
        }
        proof {
            assert(cv.subrange(0, n as int) =~= cv);
        }
        last
    }

    /// The current total width in display pixels.
    pub fn get_current_pixel_width(&self) -> (r: i64)
        requires
            self.wf(),
        ensures
            r as int == px_of_symbols(current_symbol_width_spec(cols_view(self.columns@))),
            0 <= r,
    {
        let sym = self.get_current_symbol_width();
        symbols_to_pixels(sym)
    }

    /// The view-offset correction that keeps the focused pane visible, given
    /// the width of the output's current mode and the pane's symbol-unit
    /// position and width. `None` when the pane is already fully visible.
    pub fn shift_offset(&self, mode_width: i64, col: i64, pane_width: i64) -> (r: Option<i64>)
        requires
            self.wf(),
            0 <= col,
            1 <= pane_width,
            col + pane_width <= GEOM_MAX,
            0 <= mode_width <= OFFSET_MAX,
        ensures
            ({
                let v = self.niri_window.view_offset as int;
                let s = pane_pixel_start(col as int);
                let e = px_of_symbols(col as int + pane_width as int);
                &&& (v + mode_width < e ==> r == Some(((e - mode_width) as i64)))
                &&& (!(v + mode_width < e) && v > s ==> r == Some((s as i64)))
                &&& (!(v + mode_width < e) && !(v > s) ==> r is None)
            }),
    {
        let start_sym = if col > 0 {
            col - 1
        } else {
            0
        };
        let s = symbols_to_pixels(start_sym);
        let e = symbols_to_pixels(col + pane_width);
        view_offset_correction(self.niri_window.view_offset, mode_width, s, e)
    }

    /// Whether the focused pane touches the bounding-box edge that lies in
    /// the given direction.
    pub open spec fn touches_edge(
        self,
        direction: Direction,
        row: int,
        col: int,
        pane_width: int,
        pane_height: int,
    ) -> bool {
        match direction {
            Direction::Up => row == 0,
            Direction::Down => row + pane_height == self.height,
            Direction::Left => col == 0,
            Direction::Right => col + pane_width == self.width,
        }
    }

    /// The in-editor focus-move for the request, or `None` when the focused
    /// pane already touches the bounding-box edge in that direction and the
    /// request must escalate to the outer manager.
    pub fn get_vim_cmd_direction(
        &self,
        direction: &Direction,
        row: i64,
        col: i64,
        pane_width: i64,
        pane_height: i64,
    ) -> (r: Option<Direction>)
        requires
            0 <= row,
            0 <= col,
            0 <= pane_width,
            0 <= pane_height,
            col + pane_width <= GEOM_MAX,
            row + pane_height <= GEOM_MAX,
        ensures
            r == if self.touches_edge(
                *direction,
                row as int,
                col as int,
                pane_width as int,
                pane_height as int,
            ) {
                Option::<Direction>::None
            } else {
                Some(*direction)
            },
    {
        let pane_right = col + pane_width;
        let pane_bottom = row + pane_height;
        let touches = match direction {
            Direction::Up => row == 0,
            Direction::Down => pane_bottom == self.height,
            Direction::Left => col == 0,
            Direction::Right => pane_right == self.width,
        };
        if touches {
            None
        } else {
            Some(*direction)
        }
    }

    /// Decide a focus-switch request: a directional key sequence for the
    /// editor, or the outer manager's focus action for the direction when
    /// the focused pane touches that edge.
    pub fn switch(
        &self,
        direction: &Direction,
        row: i64,
        col: i64,
        pane_width: i64,
        pane_height: i64,
    ) -> (r: NavCommand)
        requires
            0 <= row,
            0 <= col,
            0 <= pane_width,
            0 <= pane_height,
            col + pane_width <= GEOM_MAX,
            row + pane_height <= GEOM_MAX,
        ensures
            ({
                let touches = self.touches_edge(
                    *direction,
                    row as int,
                    col as int,
                    pane_width as int,
                    pane_height as int,
                );
                if touches {
                    r == NavCommand::Outer(NiriActionDirection::new_focus_spec().action_for(*direction))
                } else {
                    r matches NavCommand::EditorKeys(s) && s@ == "<Esc><C-w>"@ + "<"@
                        + direction.name() + ">"@
                }
            }),
    {
        match self.get_vim_cmd_direction(direction, row, col, pane_width, pane_height) {
            Some(d) => {
                let mut key = String::from_str("<");
                key.append(d.to_str());
                key.append(">");
                let cmd = window_input_cmd(key.as_str());
                proof {
                    assert(cmd@ =~= "<Esc><C-w>"@ + "<"@ + direction.name() + ">"@);
                }
                NavCommand::EditorKeys(cmd)
            },
            None => NavCommand::Outer(NiriActionDirection::new_focus().mk_action(direction)),
        }
    }

    /// Decide a pane-move request: the editor's rotation key for the
    /// direction (panes rotate backward for up or left, forward for down or
    /// right), or the outer manager's move action when the focused pane
    /// touches that edge.
    pub fn move_window(
        &self,
        direction: &Direction,
        row: i64,
        col: i64,
        pane_width: i64,
        pane_height: i64,
    ) -> (r: NavCommand)
        requires
            0 <= row,
            0 <= col,
            0 <= pane_width,
            0 <= pane_height,
            col + pane_width <= GEOM_MAX,
            row + pane_height <= GEOM_MAX,
        ensures
            ({
                let touches = self.touches_edge(
                    *direction,
                    row as int,
                    col as int,
                    pane_width as int,
                    pane_height as int,
                );
                if touches {
                    r == NavCommand::Outer(NiriActionDirection::new_move_spec().action_for(*direction))
                } else if *direction is Up || *direction is Left {
                    r matches NavCommand::EditorKeys(s) && s@ == "<Esc><C-w>"@ + "R"@
                } else {
                    r matches NavCommand::EditorKeys(s) && s@ == "<Esc><C-w>"@ + "r"@
                }
            }),
    {
        match self.get_vim_cmd_direction(direction, row, col, pane_width, pane_height) {
            Some(d) => {
                let rotation = match d {
                    Direction::Up => "R",
                    Direction::Left => "R",
                    Direction::Down => "r",
                    Direction::Right => "r",
                };
                NavCommand::EditorKeys(window_input_cmd(rotation))
            },
            None => NavCommand::Outer(NiriActionDirection::new_move().mk_action(direction)),
        }
    }
}

/// Symbol units converted to display pixels, rounded to nearest.
pub fn symbols_to_pixels(sym: i64) -> (r: i64)
    requires
        0 <= sym <= GEOM_MAX,
    ensures
        r as int == px_of_symbols(sym as int),
        0 <= r <= OFFSET_MAX,
{
    proof {
        assert(sym as int * (PIXEL_NUM as int) <= 4294967296 * 80093) by (nonlinear_arith)
            requires
                0 <= sym as int <= 4294967296,
        ;
        assert(0 <= sym as int * (PIXEL_NUM as int)) by (nonlinear_arith)
            requires
                0 <= sym as int,
        ;
    }
    let num = sym * PIXEL_NUM + 5000;
    proof {
        vstd::arithmetic::div_mod::lemma_div_is_ordered(0, num as int, 10000);
        vstd::arithmetic::div_mod::lemma_div_is_ordered(num as int, (4294967296 * 80093 + 5000) as int, 10000);
    }
    num / 10000
}

/// The view-offset correction for a viewport `[v, v + m)` and a focused-pane
/// pixel interval `[s, e)`: when the pane's trailing edge is past the
/// viewport, scroll right exactly to it; when its leading edge is before the
/// viewport, scroll left exactly to it; otherwise no correction. The two
/// conditions are checked in this order, so at most one correction comes out.
pub fn view_offset_correction(v: i64, m: i64, s: i64, e: i64) -> (r: Option<i64>)
    requires
        -OFFSET_MAX <= v <= OFFSET_MAX,
        0 <= m <= OFFSET_MAX,
        0 <= s <= OFFSET_MAX,
        0 <= e <= OFFSET_MAX,
    ensures
        v + m < e ==> r == Some((e - m) as i64),
        !(v + m < e) && v > s ==> r == Some(s),
        !(v + m < e) && !(v > s) ==> r is None,
{
    if v + m < e {
        Some(e - m)
    } else if v > s {
        Some(s)
    } else {
        None
    }
}

/// The key sequence that hands one window command to the editor.
pub fn window_input_cmd(key: &str) -> (r: String)
    ensures
        r@ == "<Esc><C-w>"@ + key@,
{
    let mut cmd = String::from_str("<Esc><C-w>");
    cmd.append(key);
    cmd
}

/// The width multiplier scales the desired width monotonically: a larger
/// multiplier never asks for a narrower window, in symbol units or in
/// pixels, for a fixed layout.
pub proof fn lemma_desired_width_monotone(cols: Seq<ColumnView>, k1: int, k2: int)
    requires
        0 <= k1 <= k2,
        forall|i: int| 0 <= i < cols.len() ==> (#[trigger] cols[i]).textwidth_spec() >= 0,
    ensures
        desired_symbol_width_spec(cols, k1) <= desired_symbol_width_spec(cols, k2),
        px_of_symbols(desired_symbol_width_spec(cols, k1)) <= px_of_symbols(
            desired_symbol_width_spec(cols, k2),
        ),
{
    lemma_total_textwidth_nonneg(cols);
    let t = total_textwidth(cols);
    vstd::arithmetic::mul::lemma_mul_inequality(k1, k2, t);
    assert(k1 * t == t * k1) by (nonlinear_arith);
    assert(k2 * t == t * k2) by (nonlinear_arith);
    vstd::arithmetic::div_mod::lemma_div_is_ordered(
        k1 * t + 500,
        k2 * t + 500,
        KOEFF_DEN as int,
    );
    let d1 = desired_symbol_width_spec(cols, k1);
    let d2 = desired_symbol_width_spec(cols, k2);
    vstd::arithmetic::mul::lemma_mul_inequality(d1, d2, PIXEL_NUM as int);
    assert(d1 * (PIXEL_NUM as int) == (PIXEL_NUM as int) * d1) by (nonlinear_arith);
    assert(d2 * (PIXEL_NUM as int) == (PIXEL_NUM as int) * d2) by (nonlinear_arith);
    vstd::arithmetic::div_mod::lemma_div_is_ordered(
        d1 * (PIXEL_NUM as int) + 5000,
        d2 * (PIXEL_NUM as int) + 5000,
        PIXEL_DEN as int,
    );
}

/// The total of the columns' content widths is never negative.
pub proof fn lemma_total_textwidth_nonneg(cols: Seq<ColumnView>)
    requires
        forall|i: int| 0 <= i < cols.len() ==> (#[trigger] cols[i]).textwidth_spec() >= 0,
    ensures
        total_textwidth(cols) >= 0,
    decreases cols.len(),
{
    if cols.len() > 0 {
        assert(forall|i: int|
            0 <= i < cols.drop_last().len() ==> (#[trigger] cols.drop_last()[i]).textwidth_spec()
                >= 0);
        lemma_total_textwidth_nonneg(cols.drop_last());
    }
}

} // verus!
