//! Selection logic over the outer manager's and the terminal's query
//! replies, and the error for each missing step.

use niri_integration::{
    find_active_workspace, find_kitty_candidate, find_kitty_focused_window, find_window_by_id,
    get_output_mode_of_window, kitty_tree_has_cwd, Error, ErrorKind, KittyOsWindow, KittyTab,
    KittyWindow, Mode, NiriWindow, Output, Workspace,
};

fn win(id: u64, workspace_id: Option<u64>) -> NiriWindow {
    NiriWindow {
        id,
        app_id: Some(String::from("neovide")),
        pid: Some(100),
        workspace_id,
        is_focused: false,
        view_offset: 0,
    }
}

fn mode(width: u16) -> Mode {
    Mode { width, height: 1440, refresh_rate: 60000 }
}

fn setup() -> (Vec<Workspace>, Vec<Output>) {
    let workspaces = vec![
        Workspace { id: 1, output: Some(String::from("DP-1")), is_active: false },
        Workspace { id: 2, output: Some(String::from("DP-2")), is_active: true },
        Workspace { id: 3, output: None, is_active: false },
        Workspace { id: 4, output: Some(String::from("DP-3")), is_active: false },
        Workspace { id: 5, output: Some(String::from("DP-4")), is_active: false },
    ];
    let outputs = vec![
        Output { name: String::from("DP-1"), modes: vec![mode(1920), mode(2560)], current_mode: Some(1) },
        Output { name: String::from("DP-2"), modes: vec![mode(3840)], current_mode: Some(0) },
        Output { name: String::from("DP-3"), modes: vec![mode(1280)], current_mode: None },
        Output { name: String::from("DP-4"), modes: vec![mode(1024)], current_mode: Some(5) },
    ];
    (workspaces, outputs)
}

#[test]
fn output_mode_found() {
    let (wss, outs) = setup();
    assert_eq!(get_output_mode_of_window(&win(7, Some(1)), &wss, &outs), Ok(mode(2560)));
    assert_eq!(get_output_mode_of_window(&win(7, Some(2)), &wss, &outs), Ok(mode(3840)));
}

#[test]
fn output_mode_errors() {
    let (wss, outs) = setup();
    assert_eq!(get_output_mode_of_window(&win(7, None), &wss, &outs), Err(Error::NoWorkspaceId));
    assert_eq!(
        get_output_mode_of_window(&win(7, Some(99)), &wss, &outs),
        Err(Error::WorkspaceNotFound)
    );
    assert_eq!(
        get_output_mode_of_window(&win(7, Some(3)), &wss, &outs),
        Err(Error::WorkspaceHidden)
    );
    assert_eq!(
        get_output_mode_of_window(&win(7, Some(4)), &wss, &outs),
        Err(Error::OutputDisabled)
    );
    assert_eq!(
        get_output_mode_of_window(&win(7, Some(5)), &wss, &outs),
        Err(Error::ModeOutOfRange)
    );
    let no_outputs: Vec<Output> = Vec::new();
    assert_eq!(
        get_output_mode_of_window(&win(7, Some(1)), &wss, &no_outputs),
        Err(Error::OutputNotFound)
    );
}

#[test]
fn error_kinds() {
    assert_eq!(Error::NoWorkspaceId.kind(), ErrorKind::NotFound);
    assert_eq!(Error::ModeOutOfRange.kind(), ErrorKind::Protocol);
    assert_eq!(Error::UnsupportedClass.kind(), ErrorKind::Unsupported);
    assert!(!Error::OutputNotFound.message().is_empty());
}

#[test]
fn active_workspace_is_first_active() {
    let (wss, _) = setup();
    assert_eq!(find_active_workspace(&wss), Some(2));
    let none: Vec<Workspace> = Vec::new();
    assert_eq!(find_active_workspace(&none), None);
}

#[test]
fn window_by_id() {
    let wins = vec![win(10, Some(1)), win(11, Some(1)), win(12, Some(2))];
    assert_eq!(find_window_by_id(&wins, 11), Some(1));
    assert_eq!(find_window_by_id(&wins, 99), None);
}

#[test]
fn kitty_candidates_walk_forward() {
    let mut a = win(10, Some(2));
    a.app_id = Some(String::from("kitty"));
    let mut b = win(11, Some(2));
    b.app_id = Some(String::from("kitty"));
    b.is_focused = true; // the window the launcher was invoked from
    let mut c = win(12, Some(2));
    c.app_id = Some(String::from("kitty"));
    let d = win(13, Some(2)); // not a terminal
    let wins = vec![d, a, b, c];
    assert_eq!(find_kitty_candidate(&wins, 2, 0), Some(1));
    assert_eq!(find_kitty_candidate(&wins, 2, 2), Some(3));
    assert_eq!(find_kitty_candidate(&wins, 2, 4), None);
    assert_eq!(find_kitty_candidate(&wins, 9, 0), None);
}

fn kwin(focused: bool, cwd: &str) -> KittyWindow {
    KittyWindow { is_focused: focused, cwd: String::from(cwd), env: Vec::new() }
}

#[test]
fn focused_kitty_window_found() {
    let tree = vec![
        KittyOsWindow {
            is_focused: false,
            tabs: vec![KittyTab { is_focused: true, windows: vec![kwin(true, "/a")] }],
        },
        KittyOsWindow {
            is_focused: true,
            tabs: vec![
                KittyTab { is_focused: false, windows: vec![kwin(true, "/b")] },
                KittyTab { is_focused: true, windows: vec![kwin(false, "/c"), kwin(true, "/d")] },
            ],
        },
    ];
    let found = find_kitty_focused_window(&tree).expect("a focused window exists");
    assert_eq!(found.cwd, "/d");
}

#[test]
fn focused_kitty_window_absent() {
    let tree = vec![KittyOsWindow {
        is_focused: true,
        tabs: vec![KittyTab { is_focused: false, windows: vec![kwin(true, "/a")] }],
    }];
    assert!(find_kitty_focused_window(&tree).is_none());
}

#[test]
fn kitty_tree_cwd_search_ignores_focus() {
    let tree = vec![KittyOsWindow {
        is_focused: false,
        tabs: vec![KittyTab { is_focused: false, windows: vec![kwin(false, "/work")] }],
    }];
    assert!(kitty_tree_has_cwd(&tree, &String::from("/work")));
    assert!(!kitty_tree_has_cwd(&tree, &String::from("/other")));
}
