//! Layout reconstruction: merge, split, ordering and permutation behaviour.

use niri_integration::{NiriWindow, Vim, Win};

fn pane(id: u64, row: i64, col: i64, width: i64, height: i64, tw: i64) -> Win {
    Win::new(id, row, col, width, height, Some(tw), String::new())
}

fn floating_pane(id: u64, row: i64, col: i64, width: i64, height: i64) -> Win {
    Win::new(id, row, col, width, height, None, String::from("editor"))
}

fn window() -> NiriWindow {
    NiriWindow {
        id: 7,
        app_id: Some(String::from("neovide")),
        pid: Some(1234),
        workspace_id: Some(1),
        is_focused: true,
        view_offset: 0,
    }
}

fn intervals(vim: &Vim) -> Vec<(i64, i64)> {
    vim.get_columns().iter().map(|c| (c.start, c.end)).collect()
}

#[test]
fn disjoint_panes_one_column_each_sorted() {
    let wins = vec![
        pane(1, 0, 80, 80, 40, 80),
        pane(2, 0, 0, 80, 40, 80),
        pane(3, 0, 160, 40, 40, 80),
    ];
    let vim = Vim::new(wins, window());
    assert_eq!(intervals(&vim), vec![(0, 80), (80, 160), (160, 200)]);
    for c in vim.get_columns() {
        assert_eq!(c.get_windows().len(), 1);
        assert_eq!(c.get_windows()[0].get_columns(), 1);
    }
}

#[test]
fn disjoint_panes_permutation_invariant() {
    let a = vec![
        pane(1, 0, 0, 80, 40, 80),
        pane(2, 0, 80, 80, 40, 80),
        pane(3, 0, 160, 40, 40, 80),
    ];
    let b = vec![
        pane(3, 0, 160, 40, 40, 80),
        pane(1, 0, 0, 80, 40, 80),
        pane(2, 0, 80, 80, 40, 80),
    ];
    let va = Vim::new(a, window());
    let vb = Vim::new(b, window());
    assert_eq!(intervals(&va), intervals(&vb));
    let ids_a: Vec<u64> = va.get_columns().iter().map(|c| c.get_windows()[0].id).collect();
    let ids_b: Vec<u64> = vb.get_columns().iter().map(|c| c.get_windows()[0].id).collect();
    assert_eq!(ids_a, ids_b);
}

#[test]
fn same_start_merges_to_wider_interval() {
    // Narrower pane first, wider second.
    let vim = Vim::new(vec![pane(1, 0, 0, 80, 40, 80), pane(2, 0, 0, 100, 40, 80)], window());
    assert_eq!(intervals(&vim), vec![(0, 100)]);
    let cols = vim.get_columns();
    let ws = cols[0].get_windows();
    assert_eq!(ws.len(), 2);
    assert_eq!(ws[0].id, 1);
    assert_eq!(ws[0].get_columns(), 2); // the narrower pane was folded
    assert_eq!(ws[1].id, 2);
    assert_eq!(ws[1].get_columns(), 1);
}

#[test]
fn same_start_merges_to_wider_interval_reversed() {
    // Wider pane first, narrower second.
    let vim = Vim::new(vec![pane(1, 0, 0, 100, 40, 80), pane(2, 0, 0, 80, 40, 80)], window());
    assert_eq!(intervals(&vim), vec![(0, 100)]);
    let ws = vim.get_columns()[0].get_windows();
    assert_eq!(ws[0].get_columns(), 1);
    assert_eq!(ws[1].get_columns(), 2); // the narrower pane was folded
}

#[test]
fn strict_subset_splits_column() {
    // A pane strictly inside an existing column cuts it.
    let vim = Vim::new(vec![pane(1, 0, 0, 160, 40, 200), pane(2, 0, 40, 40, 40, 100)], window());
    assert_eq!(intervals(&vim), vec![(0, 40), (40, 80)]);
    let cols = vim.get_columns();
    assert_eq!(cols[0].get_windows()[0].id, 1);
    assert_eq!(cols[0].get_windows()[0].get_columns(), 2);
    assert_eq!(cols[1].get_windows()[0].id, 2);
    assert_eq!(cols[1].get_windows()[0].get_columns(), 1);
}

#[test]
fn wide_pane_split_by_two_halves() {
    // One pane spanning the whole width, then its two halves.
    let vim = Vim::new(
        vec![
            pane(1, 0, 0, 160, 40, 200),
            pane(2, 0, 0, 80, 40, 100),
            pane(3, 0, 80, 80, 40, 100),
        ],
        window(),
    );
    assert_eq!(intervals(&vim), vec![(0, 80), (80, 160)]);
    let cols = vim.get_columns();
    let wide = cols[0]
        .get_windows()
        .iter()
        .find(|w| w.id == 1)
        .expect("the wide pane stays in the left column");
    assert_eq!(wide.get_columns(), 2);
    // The wide pane's large content width is excluded from both columns.
    assert_eq!(cols[0].textwidth(), 80);
    assert_eq!(cols[1].textwidth(), 100);
}

#[test]
fn ambiguous_partial_overlap_is_dropped() {
    // Overlap without shared edge or containment: the candidate is dropped.
    let vim = Vim::new(vec![pane(1, 0, 0, 100, 40, 80), pane(2, 0, 50, 100, 40, 80)], window());
    assert_eq!(intervals(&vim), vec![(0, 100)]);
    assert_eq!(vim.get_columns()[0].get_windows().len(), 1);
}

#[test]
fn floating_pane_takes_no_column_but_counts_in_bbox() {
    let vim = Vim::new(vec![pane(1, 0, 0, 80, 40, 80), floating_pane(2, 10, 200, 50, 10)], window());
    assert_eq!(intervals(&vim), vec![(0, 80)]);
    // Bounding box spans the floating pane too.
    assert_eq!(vim.width, 250);
    assert_eq!(vim.height, 40);
}

#[test]
fn shared_end_truncates_existing_column() {
    let vim = Vim::new(vec![pane(1, 0, 0, 160, 40, 200), pane(2, 0, 80, 80, 40, 100)], window());
    assert_eq!(intervals(&vim), vec![(0, 80), (80, 160)]);
    let cols = vim.get_columns();
    assert_eq!(cols[0].get_windows()[0].id, 1);
    assert_eq!(cols[0].get_windows()[0].get_columns(), 2);
    assert_eq!(cols[1].get_windows()[0].id, 2);
}

#[test]
fn textwidth_excludes_folded_panes_and_floors_at_80() {
    // All remaining eligible panes report below 80: the floor answers.
    let vim = Vim::new(vec![pane(1, 0, 0, 80, 40, 60), pane(2, 0, 80, 80, 40, 0)], window());
    let cols = vim.get_columns();
    assert_eq!(cols[0].textwidth(), 80);
    assert_eq!(cols[1].textwidth(), 80);
}

#[test]
fn textwidth_takes_widest_eligible_pane() {
    let vim = Vim::new(vec![pane(1, 0, 0, 80, 20, 120), pane(2, 20, 0, 80, 20, 90)], window());
    // Both panes share the column interval exactly: one column, both eligible.
    let cols = vim.get_columns();
    assert_eq!(cols.len(), 1);
    assert_eq!(cols[0].textwidth(), 120);
}

#[test]
fn empty_layout() {
    let vim = Vim::new(Vec::new(), window());
    assert!(vim.get_columns().is_empty());
    assert_eq!(vim.width, 0);
    assert_eq!(vim.height, 0);
    assert_eq!(vim.get_current_symbol_width(), 0);
    assert_eq!(vim.get_desired_symbol_width(), 0);
}

#[test]
fn only_floating_panes_make_no_columns() {
    let vim = Vim::new(vec![floating_pane(1, 0, 0, 80, 40)], window());
    assert!(vim.get_columns().is_empty());
    assert_eq!(vim.width, 80);
}

#[test]
fn columns_mut_allows_adjustment() {
    let mut vim = Vim::new(vec![pane(1, 0, 0, 80, 40, 80)], window());
    vim.get_columns_mut()[0].end = 90;
    assert_eq!(vim.get_columns()[0].end, 90);
}

#[test]
fn widening_merge_is_cut_at_the_following_column() {
    // A same-start merge widens the first column to [0, 30), which would
    // overrun the column at 5; the ordering invariant wins and the widened
    // interval is cut back at 5. The later pane then lands past both,
    // keeping the sequence sorted by start.
    let vim = Vim::new(
        vec![
            pane(1, 0, 0, 10, 40, 80),
            pane(2, 0, 5, 1, 40, 80),
            pane(3, 0, 0, 30, 40, 80),
            pane(4, 0, 10, 10, 40, 80),
        ],
        window(),
    );
    assert_eq!(intervals(&vim), vec![(0, 5), (5, 6), (10, 20)]);
    let cols = vim.get_columns();
    for pair in intervals(&vim).windows(2) {
        assert!(pair[0].1 <= pair[1].0); // ordered, pairwise disjoint
    }
    // The merge still folded the panes it absorbed.
    assert_eq!(cols[0].get_windows()[0].id, 1);
    assert_eq!(cols[0].get_windows()[0].get_columns(), 3);
    assert_eq!(cols[0].get_windows()[1].id, 3);
    assert_eq!(cols[0].get_windows()[1].get_columns(), 1);
    assert_eq!(cols[1].get_windows()[0].id, 2);
    assert_eq!(cols[2].get_windows()[0].id, 4);
}
