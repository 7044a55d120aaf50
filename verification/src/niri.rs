//! Plain models of the outer window manager's data, the actions the library
//! asks it to perform, and the pure selection logic over its query replies.
//!
//! The IPC round-trips themselves happen outside the library; the replies are
//! handed in as plain values and the chosen action is handed back out.

use vstd::prelude::*;

use crate::error::Error;
use vstd::string::StringExecFns;

verus! {

/// One display mode of an output, in physical pixels.
#[derive(Debug, Clone, Copy, PartialEq, Eq, Structural)]
pub struct Mode {
    /// Width in physical pixels.
    pub width: u16,
    /// Height in physical pixels.
    pub height: u16,
    /// Refresh rate in millihertz.
    pub refresh_rate: u32,
}

/// One workspace of the outer manager.
pub struct Workspace {
    /// Unique id of the workspace.
    pub id: u64,
    /// Name of the output the workspace is on, if it is shown anywhere.
    pub output: Option<String>,
    /// Whether the workspace is the active one of its output.
    pub is_active: bool,
}

/// One output of the outer manager.
pub struct Output {
    /// Name of the output.
    pub name: String,
    /// Available modes of the output.
    pub modes: Vec<Mode>,
    /// Index of the current mode in `modes`; `None` when disabled.
    pub current_mode: Option<usize>,
}

/// The outer manager's view of one window.
pub struct NiriWindow {
    /// Unique id of the window.
    pub id: u64,
    /// Application class of the window, if set.
    pub app_id: Option<String>,
    /// Process id behind the window, if known.
    pub pid: Option<i32>,
    /// Id of the workspace the window is on, if any.
    pub workspace_id: Option<u64>,
    /// Whether the window is focused.
    pub is_focused: bool,
    /// Current horizontal view offset of the window's column, in pixels.
    pub view_offset: i64,
}

/// An action the library asks the outer manager to perform.
#[derive(Debug, Clone, PartialEq, Eq, Structural)]
pub enum NiriAction {
    /// Focus the window above, or the workspace above.
    FocusWindowOrWorkspaceUp,
    /// Focus the window below, or the workspace below.
    FocusWindowOrWorkspaceDown,
    /// Focus the column to the left, or the monitor to the left.
    FocusColumnOrMonitorLeft,
    /// Focus the column to the right, or the monitor to the right.
    FocusColumnOrMonitorRight,
    /// Move the window up, or to the workspace above.
    MoveWindowUpOrToWorkspaceUp,
    /// Move the window down, or to the workspace below.
    MoveWindowDownOrToWorkspaceDown,
    /// Move the column left, or to the monitor to the left.
    MoveColumnLeftOrToMonitorLeft,
    /// Move the column right, or to the monitor to the right.
    MoveColumnRightOrToMonitorRight,
    /// Set the window's width to a fixed pixel value.
    SetWindowWidth { id: Option<u64>, width_px: i64 },
    /// Set the view offset of the window's column, in pixels.
    ViewOffset { id: Option<u64>, offset: i64 },
    /// Close a window, or the focused one.
    CloseWindow { id: Option<u64> },
    /// Focus the window with the given id.
    FocusWindow { id: u64 },
}

/// A request the library asks the outer manager to answer or perform.
#[derive(Debug, Clone, PartialEq, Eq, Structural)]
pub enum NiriRequest {
    /// Perform an action.
    Action(NiriAction),
    /// Query all workspaces.
    Workspaces,
    /// Query all outputs.
    Outputs,
    /// Query all windows.
    Windows,
    /// Query the focused window.
    FocusedWindow,
}

/// The four directional actions of one kind of escalated navigation.
pub struct NiriActionDirection {
    /// The action for an upward request.
    pub up: NiriAction,
    /// The action for a downward request.
    pub down: NiriAction,
    /// The action for a leftward request.
    pub left: NiriAction,
    /// The action for a rightward request.
    pub right: NiriAction,
}

impl NiriActionDirection {
    /// The focus-change escalation set.
    pub open spec fn new_focus_spec() -> NiriActionDirection {
        NiriActionDirection {
            up: NiriAction::FocusWindowOrWorkspaceUp,
            down: NiriAction::FocusWindowOrWorkspaceDown,
            left: NiriAction::FocusColumnOrMonitorLeft,
            right: NiriAction::FocusColumnOrMonitorRight,
        }
    }

    /// The window-move escalation set.
    pub open spec fn new_move_spec() -> NiriActionDirection {
        NiriActionDirection {
            up: NiriAction::MoveWindowUpOrToWorkspaceUp,
            down: NiriAction::MoveWindowDownOrToWorkspaceDown,
            left: NiriAction::MoveColumnLeftOrToMonitorLeft,
            right: NiriAction::MoveColumnRightOrToMonitorRight,
        }
    }

    /// The focus-change escalation set.
    pub fn new_focus() -> (r: NiriActionDirection)
        ensures
            r == NiriActionDirection::new_focus_spec(),
    {
        NiriActionDirection {
            up: NiriAction::FocusWindowOrWorkspaceUp,
            down: NiriAction::FocusWindowOrWorkspaceDown,
            left: NiriAction::FocusColumnOrMonitorLeft,
            right: NiriAction::FocusColumnOrMonitorRight,
        }
    }

    /// The window-move escalation set.
    pub fn new_move() -> (r: NiriActionDirection)
        ensures
            r == NiriActionDirection::new_move_spec(),
    {
        NiriActionDirection {
            up: NiriAction::MoveWindowUpOrToWorkspaceUp,
            down: NiriAction::MoveWindowDownOrToWorkspaceDown,
            left: NiriAction::MoveColumnLeftOrToMonitorLeft,
            right: NiriAction::MoveColumnRightOrToMonitorRight,
        }
    }

    /// The action of this set for one direction.
    pub open spec fn action_for(self, direction: crate::Direction) -> NiriAction {
        match direction {
            crate::Direction::Up => self.up,
            crate::Direction::Down => self.down,
            crate::Direction::Left => self.left,
            crate::Direction::Right => self.right,
        }
    }

    /// Pick the action of this set for the requested direction.
    pub fn mk_action(self, direction: &crate::Direction) -> (a: NiriAction)
        ensures
            a == self.action_for(*direction),
    {
        match direction {
            crate::Direction::Up => self.up,
            crate::Direction::Down => self.down,
            crate::Direction::Left => self.left,
            crate::Direction::Right => self.right,
        }
    }

    /// Wrap the action of this set for the requested direction as a request.
    pub fn mk_request(self, direction: &crate::Direction) -> (r: NiriRequest)
        ensures
            r == NiriRequest::Action(self.action_for(*direction)),
    {
        NiriRequest::Action(self.mk_action(direction))
    }
}

/// The first workspace of the sequence with the given id.
pub open spec fn find_workspace_spec(wss: Seq<Workspace>, id: u64) -> Option<Workspace>
    decreases wss.len(),
{
    if wss.len() == 0 {
        None
    } else if wss[0].id == id {
        Some(wss[0])
    } else {
        find_workspace_spec(wss.drop_first(), id)
    }
}

/// The first output of the sequence with the given name.
pub open spec fn find_output_spec(outs: Seq<Output>, name: Seq<char>) -> Option<Output>
    decreases outs.len(),
{
    if outs.len() == 0 {
        None
    } else if outs[0].name@ == name {
        Some(outs[0])
    } else {
        find_output_spec(outs.drop_first(), name)
    }
}

/// The display mode the window is shown with, derived from the workspace and
/// output query replies, or the exact error naming what is missing.
pub open spec fn output_mode_spec(
    win: NiriWindow,
    wss: Seq<Workspace>,
    outs: Seq<Output>,
) -> Result<Mode, Error> {
    match win.workspace_id {
        None => Err(Error::NoWorkspaceId),
        Some(id) => match find_workspace_spec(wss, id) {
            None => Err(Error::WorkspaceNotFound),
            Some(ws) => match ws.output {
                None => Err(Error::WorkspaceHidden),
                Some(name) => match find_output_spec(outs, name@) {
                    None => Err(Error::OutputNotFound),
                    Some(out) => match out.current_mode {
                        None => Err(Error::OutputDisabled),
                        Some(idx) => if idx >= out.modes.len() {
                            Err(Error::ModeOutOfRange)
                        } else {
                            Ok(out.modes[idx as int])
                        },
                    },
                },
            },
        },
    }
}

/// Find the first workspace with the given id.
fn find_workspace(wss: &Vec<Workspace>, id: u64) -> (r: Option<&Workspace>)
    ensures
        match r {
            Some(ws) => find_workspace_spec(wss@, id) == Some(*ws),
            None => find_workspace_spec(wss@, id) is None,
        },
{
    let n = wss.len();
    let mut i: usize = 0;
    proof {
        assert(wss@.subrange(0, n as int) =~= wss@);
    }
    while i < n
        invariant
            i <= n,
            n == wss.len(),
            find_workspace_spec(wss@, id) == find_workspace_spec(wss@.subrange(i as int, n as int), id),
        decreases n - i,
    {
        proof {
            assert(wss@.subrange(i as int, n as int).drop_first() =~= wss@.subrange(
                i as int + 1,
                n as int,
            ));
        }
        if wss[i].id == id {
            return Some(&wss[i]);
        }
        i = i + 1;
    }
    None
}

/// Find the first output with the given name.
fn find_output<'a>(outs: &'a Vec<Output>, name: &String) -> (r: Option<&'a Output>)
    ensures
        match r {
            Some(out) => find_output_spec(outs@, name@) == Some(*out),
            None => find_output_spec(outs@, name@) is None,
        },
{
    let n = outs.len();
    let mut i: usize = 0;
    proof {
        assert(outs@.subrange(0, n as int) =~= outs@);
    }
    while i < n
        invariant
            i <= n,
            n == outs.len(),
            find_output_spec(outs@, name@) == find_output_spec(
                outs@.subrange(i as int, n as int),
                name@,
            ),
        decreases n - i,
    {
        proof {
            assert(outs@.subrange(i as int, n as int).drop_first() =~= outs@.subrange(
                i as int + 1,
                n as int,
            ));
        }
        if outs[i].name == *name {
            return Some(&outs[i]);
        }
        i = i + 1;
    }
    None
}

/// The display mode the window is currently shown with: look its workspace
/// up by id, the workspace's output by name, and the output's current mode by
/// index; each missing or invalid step is reported as its own error.
pub fn get_output_mode_of_window(
    win: &NiriWindow,
    workspaces: &Vec<Workspace>,
    outputs: &Vec<Output>,
) -> (r: Result<Mode, Error>)
    ensures
        r == output_mode_spec(*win, workspaces@, outputs@),
{
    let id = match win.workspace_id {
        Some(id) => id,
        None => {
            return Err(Error::NoWorkspaceId);
        },
    };
    let ws = match find_workspace(workspaces, id) {
        Some(ws) => ws,
        None => {
            return Err(Error::WorkspaceNotFound);
        },
    };
    let name = match &ws.output {
        Some(name) => name,
        None => {
            return Err(Error::WorkspaceHidden);
        },
    };
    let out = match find_output(outputs, name) {
        Some(out) => out,
        None => {
            return Err(Error::OutputNotFound);
        },
    };
    let idx = match out.current_mode {
        Some(idx) => idx,
        None => {
            return Err(Error::OutputDisabled);
        },
    };
    if idx >= out.modes.len() {
        Err(Error::ModeOutOfRange)
    } else {
        Ok(out.modes[idx])
    }
}

/// The id of the first active workspace, if any.
pub open spec fn active_workspace_spec(wss: Seq<Workspace>) -> Option<u64>
    decreases wss.len(),
{
    if wss.len() == 0 {
        None
    } else if wss[0].is_active {
        Some(wss[0].id)
    } else {
        active_workspace_spec(wss.drop_first())
    }
}

/// The first workspace marked active, as the place to look for a matching
/// window.
pub fn find_active_workspace(wss: &Vec<Workspace>) -> (r: Option<u64>)
    ensures
        r == active_workspace_spec(wss@),
{
    let n = wss.len();
    let mut i: usize = 0;
    proof {
        assert(wss@.subrange(0, n as int) =~= wss@);
    }
    while i < n
        invariant
            i <= n,
            n == wss.len(),
            active_workspace_spec(wss@) == active_workspace_spec(
                wss@.subrange(i as int, n as int),
            ),
        decreases n - i,
    {
        proof {
            assert(wss@.subrange(i as int, n as int).drop_first() =~= wss@.subrange(
                i as int + 1,
                n as int,
            ));
        }
        if wss[i].is_active {
            return Some(wss[i].id);
        }
        i = i + 1;
    }
    None
}

/// Find the first window with the given id.
pub fn find_window_by_id(wins: &Vec<NiriWindow>, id: u64) -> (r: Option<usize>)
    ensures
        match r {
            Some(i) => i < wins@.len() && wins@[i as int].id == id && forall|j: int|
                0 <= j < i ==> #[trigger] wins@[j].id != id,
            None => forall|j: int| 0 <= j < wins@.len() ==> #[trigger] wins@[j].id != id,
        },
{
    let n = wins.len();
    let mut i: usize = 0;
    while i < n
        invariant
            i <= n,
            n == wins.len(),
            forall|j: int| 0 <= j < i ==> #[trigger] wins@[j].id != id,
        decreases n - i,
    {
        if wins[i].id == id {
            return Some(i);
        }
        i = i + 1;
    }
    None
}

/// Whether a window can be the terminal window the launcher is looking for:
/// it sits on the given workspace, its class is the terminal's, and it is not
/// the window the launcher was invoked from.
pub open spec fn is_kitty_candidate(w: NiriWindow, ws_id: u64) -> bool {
    &&& w.workspace_id == Some(ws_id)
    &&& match w.app_id {
        Some(a) => a@ == "kitty"@,
        None => false,
    }
    &&& !w.is_focused
}

/// Find the first candidate terminal window at or after `from`, so the caller
/// can walk the candidates one by one while it queries each one's state.
pub fn find_kitty_candidate(wins: &Vec<NiriWindow>, ws_id: u64, from: usize) -> (r: Option<usize>)
    ensures
        match r {
            Some(i) => from <= i < wins@.len() && is_kitty_candidate(wins@[i as int], ws_id)
                && forall|j: int| from <= j < i ==> !is_kitty_candidate(#[trigger] wins@[j], ws_id),
            None => forall|j: int|
                from <= j < wins@.len() ==> !is_kitty_candidate(#[trigger] wins@[j], ws_id),
        },
{
    let n = wins.len();
    let kitty = String::from_str("kitty");
    let mut i: usize = from;
    if from > n {
        return None;
    }
    while i < n
        invariant
            from <= i <= n,
            n == wins.len(),
            kitty@ == "kitty"@,
            forall|j: int| from <= j < i ==> !is_kitty_candidate(#[trigger] wins@[j], ws_id),
        decreases n - i,
    {
        let w = &wins[i];
        let class_matches = match &w.app_id {
            Some(a) => *a == kitty,
            None => false,
        };
        let ws_matches = match w.workspace_id {
            Some(w_ws) => w_ws == ws_id,
            None => false,
        };
        if ws_matches && class_matches && !w.is_focused {
            return Some(i);
        }
        i = i + 1;
    }
    None
}

} // verus!
