//! Plain models of the terminal multiplexer's window tree and the pure
//! selection logic over it.
//!
//! The multiplexer reports its state as a tree: top-level windows hold tabs,
//! tabs hold windows. The library only reads focus flags and working
//! directories from it; the socket round-trips happen outside.

use vstd::prelude::*;

verus! {

/// One innermost terminal window.
pub struct KittyWindow {
    /// Whether this window is focused.
    pub is_focused: bool,
    /// The window's working directory.
    pub cwd: String,
    /// The window's environment, as name and value pairs.
    pub env: Vec<(String, String)>,
}

/// One tab of a top-level terminal window.
pub struct KittyTab {
    /// Whether this tab is focused.
    pub is_focused: bool,
    /// The windows of the tab.
    pub windows: Vec<KittyWindow>,
}

/// One top-level terminal window.
pub struct KittyOsWindow {
    /// Whether this top-level window is focused.
    pub is_focused: bool,
    /// The tabs of the window.
    pub tabs: Vec<KittyTab>,
}

/// The first focused window of a window list.
pub open spec fn focused_in_windows_spec(ws: Seq<KittyWindow>) -> Option<KittyWindow>
    decreases ws.len(),
{
    if ws.len() == 0 {
        None
    } else if ws[0].is_focused {
        Some(ws[0])
    } else {
        focused_in_windows_spec(ws.drop_first())
    }
}

/// The first focused window inside any focused tab of a tab list.
pub open spec fn focused_in_tabs_spec(tabs: Seq<KittyTab>) -> Option<KittyWindow>
    decreases tabs.len(),
{
    if tabs.len() == 0 {
        None
    } else {
        let here = if tabs[0].is_focused {
            focused_in_windows_spec(tabs[0].windows@)
        } else {
            None
        };
        if here is Some {
            here
        } else {
            focused_in_tabs_spec(tabs.drop_first())
        }
    }
}

/// The first focused window inside a focused tab of a focused top-level
/// window.
pub open spec fn focused_window_spec(oss: Seq<KittyOsWindow>) -> Option<KittyWindow>
    decreases oss.len(),
{
    if oss.len() == 0 {
        None
    } else {
        let here = if oss[0].is_focused {
            focused_in_tabs_spec(oss[0].tabs@)
        } else {
            None
        };
        if here is Some {
            here
        } else {
            focused_window_spec(oss.drop_first())
        }
    }
}

/// The first focused window of the list, if any.
fn focused_in_windows(ws: &Vec<KittyWindow>) -> (r: Option<&KittyWindow>)
    ensures
        match r {
            Some(w) => focused_in_windows_spec(ws@) == Some(*w),
            None => focused_in_windows_spec(ws@) is None,
        },
{
    let n = ws.len();
    let mut i: usize = 0;
    proof {
        assert(ws@.subrange(0, n as int) =~= ws@);
    }
    while i < n
        invariant
            i <= n,
            n == ws.len(),
            focused_in_windows_spec(ws@) == focused_in_windows_spec(
                ws@.subrange(i as int, n as int),
            ),
        decreases n - i,
    {
        proof {
            assert(ws@.subrange(i as int, n as int).drop_first() =~= ws@.subrange(
                i as int + 1,
                n as int,
            ));
        }
        if ws[i].is_focused {
            return Some(&ws[i]);
        }
        i = i + 1;
    }
    None
}

/// The first focused window inside any focused tab of the list, if any.
fn focused_in_tabs(tabs: &Vec<KittyTab>) -> (r: Option<&KittyWindow>)
    ensures
        match r {
            Some(w) => focused_in_tabs_spec(tabs@) == Some(*w),
            None => focused_in_tabs_spec(tabs@) is None,
        },
{
    let n = tabs.len();
    let mut i: usize = 0;
    proof {
        assert(tabs@.subrange(0, n as int) =~= tabs@);
    }
    while i < n
        invariant
            i <= n,
            n == tabs.len(),
            focused_in_tabs_spec(tabs@) == focused_in_tabs_spec(
                tabs@.subrange(i as int, n as int),
            ),
        decreases n - i,
    {
        proof {
            assert(tabs@.subrange(i as int, n as int).drop_first() =~= tabs@.subrange(
                i as int + 1,
                n as int,
            ));
        }
        if tabs[i].is_focused {
            let found = focused_in_windows(&tabs[i].windows);
            if let Some(w) = found {
                return Some(w);
            }
        }
        i = i + 1;
    }
    None
}

/// The terminal window that currently has the keyboard: the first focused
/// window inside a focused tab of a focused top-level window, if any.
pub fn find_kitty_focused_window(windows: &Vec<KittyOsWindow>) -> (r: Option<&KittyWindow>)
    ensures
        match r {
            Some(w) => focused_window_spec(windows@) == Some(*w),
            None => focused_window_spec(windows@) is None,
        },
{
    let n = windows.len();
    let mut i: usize = 0;
    proof {
        assert(windows@.subrange(0, n as int) =~= windows@);
    }
    while i < n
        invariant
            i <= n,
            n == windows.len(),
            focused_window_spec(windows@) == focused_window_spec(
                windows@.subrange(i as int, n as int),
            ),
        decreases n - i,
    {
        proof {
            assert(windows@.subrange(i as int, n as int).drop_first() =~= windows@.subrange(
                i as int + 1,
                n as int,
            ));
        }
        if windows[i].is_focused {
            let found = focused_in_tabs(&windows[i].tabs);
            if let Some(w) = found {
                return Some(w);
            }
        }
        i = i + 1;
    }
    None
}

/// Whether any window of the list works in the given directory.
pub open spec fn windows_have_cwd_spec(ws: Seq<KittyWindow>, cwd: Seq<char>) -> bool
    decreases ws.len(),
{
    if ws.len() == 0 {
        false
    } else {
        ws[0].cwd@ == cwd || windows_have_cwd_spec(ws.drop_first(), cwd)
    }
}

/// Whether any window of any tab of the list works in the given directory.
pub open spec fn tabs_have_cwd_spec(tabs: Seq<KittyTab>, cwd: Seq<char>) -> bool
    decreases tabs.len(),
{
    if tabs.len() == 0 {
        false
    } else {
        windows_have_cwd_spec(tabs[0].windows@, cwd) || tabs_have_cwd_spec(
            tabs.drop_first(),
            cwd,
        )
    }
}

/// Whether any window anywhere in the tree works in the given directory.
pub open spec fn tree_has_cwd_spec(oss: Seq<KittyOsWindow>, cwd: Seq<char>) -> bool
    decreases oss.len(),
{
    if oss.len() == 0 {
        false
    } else {
        tabs_have_cwd_spec(oss[0].tabs@, cwd) || tree_has_cwd_spec(oss.drop_first(), cwd)
    }
}

/// Whether any window of the list works in the given directory.
fn windows_have_cwd(ws: &Vec<KittyWindow>, cwd: &String) -> (r: bool)
    ensures
        r == windows_have_cwd_spec(ws@, cwd@),
{
    let n = ws.len();
    let mut i: usize = 0;
    proof {
        assert(ws@.subrange(0, n as int) =~= ws@);
    }
    while i < n
        invariant
            i <= n,
            n == ws.len(),
            windows_have_cwd_spec(ws@, cwd@) == windows_have_cwd_spec(
                ws@.subrange(i as int, n as int),
                cwd@,
            ),
        decreases n - i,
    {
        proof {
            assert(ws@.subrange(i as int, n as int).drop_first() =~= ws@.subrange(
                i as int + 1,
                n as int,
            ));
        }
        if ws[i].cwd == *cwd {
            return true;
        }
        i = i + 1;
    }
    false
}

/// Whether any window of any tab of the list works in the given directory.
fn tabs_have_cwd(tabs: &Vec<KittyTab>, cwd: &String) -> (r: bool)
    ensures
        r == tabs_have_cwd_spec(tabs@, cwd@),
{
    let n = tabs.len();
    let mut i: usize = 0;
    proof {
        assert(tabs@.subrange(0, n as int) =~= tabs@);
    }
    while i < n
        invariant
            i <= n,
            n == tabs.len(),
            tabs_have_cwd_spec(tabs@, cwd@) == tabs_have_cwd_spec(
                tabs@.subrange(i as int, n as int),
                cwd@,
            ),
        decreases n - i,
    {
        proof {
            assert(tabs@.subrange(i as int, n as int).drop_first() =~= tabs@.subrange(
                i as int + 1,
                n as int,
            ));
        }
        if windows_have_cwd(&tabs[i].windows, cwd) {
            return true;
        }
        i = i + 1;
    }
    false
}

/// Whether the terminal's window tree holds any window working in the given
/// directory: the test that decides whether an existing terminal window can
/// be focused instead of launching a new one.
pub fn kitty_tree_has_cwd(windows: &Vec<KittyOsWindow>, cwd: &String) -> (r: bool)
    ensures
        r == tree_has_cwd_spec(windows@, cwd@),
{
    let n = windows.len();
    let mut i: usize = 0;
    proof {
        assert(windows@.subrange(0, n as int) =~= windows@);
    }
    while i < n
        invariant
            i <= n,
            n == windows.len(),
            tree_has_cwd_spec(windows@, cwd@) == tree_has_cwd_spec(
                windows@.subrange(i as int, n as int),
                cwd@,
            ),
        decreases n - i,
    {
        proof {
            assert(windows@.subrange(i as int, n as int).drop_first() =~= windows@.subrange(
                i as int + 1,
                n as int,
            ));
        }
        if tabs_have_cwd(&windows[i].tabs, cwd) {
            return true;
        }
        i = i + 1;
    }
    false
}

} // verus!
