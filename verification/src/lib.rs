//! Reconstruction of an editor's multi-column pane layout from raw per-pane
//! geometry, and the width, scroll-offset and navigation decisions built on
//! top of that reconstruction.
//!
//! The editor only reports each pane's screen rectangle; the logical column
//! structure is inferred here. All I/O (editor RPC, compositor IPC) lives
//! outside this library and hands it plain values.

use vstd::prelude::*;

mod column;
mod error;
mod kitty;
mod launch;
mod laws;
mod layout;
mod niri;
mod vim;

pub use column::{Win, WinColumn, WinView, ColumnView, GEOM_MAX, FALLBACK_TEXTWIDTH, content_width, bump_win, bump_all, eligible_width_fold, merge_spec, lemma_textwidth_floor};
pub use error::{Error, ErrorKind};
pub use launch::{Application, KittyConn, LaunchSource, LaunchingData, env_map_of, env_keys_distinct, env_map_add_all, classify_window_class, split_env_assignment};
pub use laws::{column_from_some_pane, pane_has_column, panes_column_disjoint, none_floating, col_disjoint_from, lemma_disjoint_reconstruction, lemma_reconstruction_permutation_invariant, lemma_same_start_merge, lemma_strict_subset_split};
pub use layout::{MAX_PANES, wins_view, cols_view, col_of, place, build_columns, bbox_width, bbox_height, all_wf, cols_ordered_disjoint, col_counters_at_most, counters_at_most, panes_wf, lemma_place_props, lemma_build_props, calculate_columns};
pub use vim::{Vim, NavCommand, KOEFF_DEN, KOEFF_DEFAULT, KOEFF_MAX, PIXEL_NUM, PIXEL_DEN, OFFSET_MAX, DESIRED_SYMBOL_MAX, round_div, px_of_symbols, total_textwidth, desired_symbol_width_spec, current_symbol_width_spec, view_offset_correction_spec, pane_pixel_start, symbols_to_pixels, view_offset_correction, window_input_cmd, lemma_desired_width_monotone, lemma_total_textwidth_nonneg};
pub use kitty::{KittyWindow, KittyTab, KittyOsWindow, focused_in_windows_spec, focused_in_tabs_spec, focused_window_spec, find_kitty_focused_window, windows_have_cwd_spec, tabs_have_cwd_spec, tree_has_cwd_spec, kitty_tree_has_cwd};
pub use niri::{Mode, Workspace, Output, NiriWindow, NiriAction, NiriRequest, NiriActionDirection, get_output_mode_of_window, output_mode_spec, find_workspace_spec, find_output_spec, active_workspace_spec, find_active_workspace, find_window_by_id, find_kitty_candidate, is_kitty_candidate};

verus! {

/// A directional navigation request.
#[derive(Debug, Clone, Copy, PartialEq, Eq, Structural)]
pub enum Direction {
    Up,
    Down,
    Left,
    Right,
}

impl Direction {
    /// The key name the editor uses for this direction.
    pub fn to_str(&self) -> (r: &'static str)
        ensures
            r@ == self.name(),
    {
        proof {
            reveal_strlit("Up");
            reveal_strlit("Down");
            reveal_strlit("Left");
            reveal_strlit("Right");
        }
        match self {
            Direction::Up => "Up",
            Direction::Down => "Down",
            Direction::Left => "Left",
            Direction::Right => "Right",
        }
    }

    /// The name of this direction, as a sequence of characters.
    pub open spec fn name(&self) -> Seq<char> {
        match self {
            Direction::Up => "Up"@,
            Direction::Down => "Down"@,
            Direction::Left => "Left"@,
            Direction::Right => "Right"@,
        }
    }
}

} // verus!
