//! Navigation decisions: in-editor command or escalation to the outer
//! manager.

use niri_integration::{
    Direction, NavCommand, NiriAction, NiriActionDirection, NiriRequest, NiriWindow, Vim, Win,
    window_input_cmd,
};

fn pane(id: u64, row: i64, col: i64, width: i64, height: i64) -> Win {
    Win::new(id, row, col, width, height, Some(80), String::new())
}

fn window() -> NiriWindow {
    NiriWindow {
        id: 7,
        app_id: Some(String::from("neovide")),
        pid: Some(1234),
        workspace_id: Some(1),
        is_focused: true,
        view_offset: 0,
    }
}

/// A 160 x 80 layout of four quadrant panes.
fn quad_vim() -> Vim {
    Vim::new(
        vec![
            pane(1, 0, 0, 80, 40),
            pane(2, 0, 80, 80, 40),
            pane(3, 40, 0, 80, 40),
            pane(4, 40, 80, 80, 40),
        ],
        window(),
    )
}

#[test]
fn edge_pane_escalates_in_that_direction() {
    let vim = quad_vim();
    // Top-left pane: touches the top and the left edges.
    assert_eq!(vim.get_vim_cmd_direction(&Direction::Up, 0, 0, 80, 40), None);
    assert_eq!(vim.get_vim_cmd_direction(&Direction::Left, 0, 0, 80, 40), None);
    // It does not touch the bottom or right edge.
    assert_eq!(vim.get_vim_cmd_direction(&Direction::Down, 0, 0, 80, 40), Some(Direction::Down));
    assert_eq!(vim.get_vim_cmd_direction(&Direction::Right, 0, 0, 80, 40), Some(Direction::Right));
}

#[test]
fn interior_pane_never_escalates() {
    // A pane strictly inside a 200 x 120 bounding box.
    let vim = Vim::new(
        vec![pane(1, 0, 0, 200, 120), pane(2, 20, 40, 40, 40)],
        window(),
    );
    for d in [Direction::Up, Direction::Down, Direction::Left, Direction::Right] {
        assert_eq!(vim.get_vim_cmd_direction(&d, 20, 40, 40, 40), Some(d));
    }
}

#[test]
fn switch_sends_directional_keys_inside() {
    let vim = quad_vim();
    match vim.switch(&Direction::Right, 0, 0, 80, 40) {
        NavCommand::EditorKeys(s) => assert_eq!(s, "<Esc><C-w><Right>"),
        NavCommand::Outer(_) => panic!("expected an in-editor command"),
    }
}

#[test]
fn switch_escalates_at_edge() {
    let vim = quad_vim();
    match vim.switch(&Direction::Up, 0, 0, 80, 40) {
        NavCommand::Outer(a) => assert_eq!(a, NiriAction::FocusWindowOrWorkspaceUp),
        NavCommand::EditorKeys(_) => panic!("expected escalation"),
    }
    match vim.switch(&Direction::Left, 0, 0, 80, 40) {
        NavCommand::Outer(a) => assert_eq!(a, NiriAction::FocusColumnOrMonitorLeft),
        NavCommand::EditorKeys(_) => panic!("expected escalation"),
    }
}

#[test]
fn move_rotates_backward_for_up_and_left() {
    let vim = quad_vim();
    // Bottom-right pane moving up or left: in-editor rotation.
    match vim.move_window(&Direction::Up, 40, 80, 80, 40) {
        NavCommand::EditorKeys(s) => assert_eq!(s, "<Esc><C-w>R"),
        NavCommand::Outer(_) => panic!("expected rotation"),
    }
    match vim.move_window(&Direction::Left, 40, 80, 80, 40) {
        NavCommand::EditorKeys(s) => assert_eq!(s, "<Esc><C-w>R"),
        NavCommand::Outer(_) => panic!("expected rotation"),
    }
}

#[test]
fn move_rotates_forward_for_down_and_right() {
    let vim = quad_vim();
    // Top-left pane moving down or right: in-editor rotation.
    match vim.move_window(&Direction::Down, 0, 0, 80, 40) {
        NavCommand::EditorKeys(s) => assert_eq!(s, "<Esc><C-w>r"),
        NavCommand::Outer(_) => panic!("expected rotation"),
    }
    match vim.move_window(&Direction::Right, 0, 0, 80, 40) {
        NavCommand::EditorKeys(s) => assert_eq!(s, "<Esc><C-w>r"),
        NavCommand::Outer(_) => panic!("expected rotation"),
    }
}

#[test]
fn move_escalates_at_edge() {
    let vim = quad_vim();
    match vim.move_window(&Direction::Up, 0, 0, 80, 40) {
        NavCommand::Outer(a) => assert_eq!(a, NiriAction::MoveWindowUpOrToWorkspaceUp),
        NavCommand::EditorKeys(_) => panic!("expected escalation"),
    }
    match vim.move_window(&Direction::Right, 40, 80, 80, 40) {
        NavCommand::Outer(a) => assert_eq!(a, NiriAction::MoveColumnRightOrToMonitorRight),
        NavCommand::EditorKeys(_) => panic!("expected escalation"),
    }
}

#[test]
fn direction_names() {
    assert_eq!(Direction::Up.to_str(), "Up");
    assert_eq!(Direction::Down.to_str(), "Down");
    assert_eq!(Direction::Left.to_str(), "Left");
    assert_eq!(Direction::Right.to_str(), "Right");
}

#[test]
fn window_input_prefix() {
    assert_eq!(window_input_cmd("X"), "<Esc><C-w>X");
}

#[test]
fn action_sets_pick_by_direction() {
    let focus = NiriActionDirection::new_focus();
    assert_eq!(focus.mk_action(&Direction::Down), NiriAction::FocusWindowOrWorkspaceDown);
    let mv = NiriActionDirection::new_move();
    assert_eq!(
        mv.mk_request(&Direction::Left),
        NiriRequest::Action(NiriAction::MoveColumnLeftOrToMonitorLeft)
    );
}
