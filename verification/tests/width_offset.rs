//! Width and view-offset calculation.

use niri_integration::{view_offset_correction, symbols_to_pixels, NiriWindow, Vim, Win};

fn pane(id: u64, col: i64, width: i64, tw: i64) -> Win {
    Win::new(id, 0, col, width, 40, Some(tw), String::new())
}

fn window_with_offset(view_offset: i64) -> NiriWindow {
    NiriWindow {
        id: 7,
        app_id: Some(String::from("neovide")),
        pid: Some(1234),
        workspace_id: Some(1),
        is_focused: true,
        view_offset,
    }
}

fn two_pane_vim(view_offset: i64) -> Vim {
    Vim::new(vec![pane(1, 0, 80, 80), pane(2, 80, 80, 80)], window_with_offset(view_offset))
}

#[test]
fn desired_symbol_width_two_columns() {
    // round(1.2 * 80 + 1.2 * 80) with the default multiplier of 1.2.
    let vim = two_pane_vim(0);
    assert_eq!(vim.get_column_width_koeff(), 1200);
    assert_eq!(vim.get_desired_symbol_width(), 192);
}

#[test]
fn desired_pixel_width_two_columns() {
    // round(192 * 8.0093)
    let vim = two_pane_vim(0);
    assert_eq!(vim.get_desired_pixel_width(), 1538);
}

#[test]
fn current_widths() {
    let vim = two_pane_vim(0);
    assert_eq!(vim.get_current_symbol_width(), 160);
    // round(160 * 8.0093)
    assert_eq!(vim.get_current_pixel_width(), 1281);
}

#[test]
fn desired_width_monotone_in_koeff() {
    let mut vim = two_pane_vim(0);
    vim.set_column_width_koeff(1000);
    let sym_low = vim.get_desired_symbol_width();
    let px_low = vim.get_desired_pixel_width();
    vim.set_column_width_koeff(1200);
    let px_mid = vim.get_desired_pixel_width();
    vim.set_column_width_koeff(2000);
    let sym_high = vim.get_desired_symbol_width();
    let px_high = vim.get_desired_pixel_width();
    assert_eq!(sym_low, 160);
    assert_eq!(sym_high, 320);
    assert!(px_low <= px_mid && px_mid <= px_high);
    assert_eq!(px_low, 1281);
    assert_eq!(px_high, 2563);
}

#[test]
fn pixels_for_symbol_ratio() {
    let vim = two_pane_vim(0);
    assert_eq!(vim.get_pixels_for_symbol(), (80093, 10000));
    assert_eq!(symbols_to_pixels(100), 801);
    assert_eq!(symbols_to_pixels(0), 0);
}

#[test]
fn offset_scrolls_right_to_trailing_edge() {
    // Viewport [0, 1000), pane [10, 1500): reveal the trailing edge.
    assert_eq!(view_offset_correction(0, 1000, 10, 1500), Some(500));
}

#[test]
fn offset_scrolls_left_to_leading_edge() {
    // Viewport [600, 1600), pane [500, 1500): reveal the leading edge.
    assert_eq!(view_offset_correction(600, 1000, 500, 1500), Some(500));
}

#[test]
fn offset_none_when_pane_visible() {
    // Viewport [0, 2000), pane [10, 1500): nothing to do.
    assert_eq!(view_offset_correction(0, 2000, 10, 1500), None);
}

#[test]
fn shift_offset_from_pane_geometry() {
    // Focused pane at columns [100, 180): pixel interval starts one symbol
    // early: [round(99 * 8.0093), round(180 * 8.0093)) = [793, 1442).
    let vim = two_pane_vim(0);
    // Narrow mode: 1000 px viewport from offset 0 ends before 1442.
    assert_eq!(vim.shift_offset(1000, 100, 80), Some(442));
    // Wide mode: everything visible.
    assert_eq!(vim.shift_offset(2000, 100, 80), None);
    // Offset past the pane's start: scroll back to 793.
    let vim2 = two_pane_vim(900);
    assert_eq!(vim2.shift_offset(2000, 100, 80), Some(793));
}

#[test]
fn num_columns() {
    let vim = two_pane_vim(0);
    assert_eq!(vim.get_num_columns().unwrap(), 2);
    assert_eq!(vim.get_columns().len(), 2);
}
