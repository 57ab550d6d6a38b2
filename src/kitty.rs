//! The terminal's remote-control data: the commands this crate sends and
//! the window listing it reads back.

use std::collections::HashMap;
use vstd::prelude::*;

verus! {

/// Runs a terminal action in the matched windows.
#[derive(Clone, Debug, Default)]
pub struct Action {
    pub action: Vec<String>,
    pub match_window: Option<String>,
    pub self_window: Option<bool>,
}

/// Lists the terminal's OS windows, tabs and windows.
#[derive(Clone, Debug, Default)]
pub struct Ls {
    pub all_env_vars: Option<bool>,
    pub match_window: Option<String>,
    pub match_tab: Option<String>,
    pub self_window: Option<bool>,
}

#[derive(Clone, Copy, Debug, PartialEq, Eq)]
pub enum LaunchType {
    Window,
    Tab,
    OsWindow,
    Overlay,
    OverlayMain,
    Background,
    Clipboard,
    Primary,
}

#[derive(Clone, Copy, Debug, PartialEq, Eq)]
pub enum LaunchLocation {
    After,
    Before,
    Default,
    First,
    Hsplit,
    Last,
    Neighbor,
    Split,
    Vsplit,
}

#[derive(Clone, Debug)]
pub struct OsWindow {
    pub is_active: bool,
    pub is_focused: bool,
    pub tabs: Vec<Tab>,
}

#[derive(Clone, Debug)]
pub struct Tab {
    pub is_active: bool,
    pub is_focused: bool,
    pub windows: Vec<Window>,
}

#[derive(Clone, Debug)]
pub struct Window {
    pub is_active: bool,
    pub is_focused: bool,
    pub cmdline: Vec<String>,
    pub cwd: String,
    pub env: HashMap<String, String>,
    pub foreground_processes: Vec<ForegroundProcess>,
}

#[derive(Clone, Debug)]
pub struct ForegroundProcess {
    pub cmdline: Vec<String>,
    pub cwd: String,
    pub pid: u32,
}

/// The first focused window of `ws`.
pub open spec fn focused_in_windows(ws: Seq<Window>) -> Option<Window>
    decreases ws.len(),
{
    if ws.len() == 0 {
        None
    } else if ws[0].is_focused {
        Some(ws[0])
    } else {
        focused_in_windows(ws.drop_first())
    }
}

/// The focused window of the first focused tab of `tabs` that has one.
pub open spec fn focused_in_tabs(tabs: Seq<Tab>) -> Option<Window>
    decreases tabs.len(),
{
    if tabs.len() == 0 {
        None
    } else if tabs[0].is_focused && focused_in_windows(tabs[0].windows@) is Some {
        focused_in_windows(tabs[0].windows@)
    } else {
        focused_in_tabs(tabs.drop_first())
    }
}

/// The focused window of the first focused OS window of `os` that has a
/// focused tab with a focused window.
pub open spec fn focused_in_os_windows(os: Seq<OsWindow>) -> Option<Window>
    decreases os.len(),
{
    if os.len() == 0 {
        None
    } else if os[0].is_focused && focused_in_tabs(os[0].tabs@) is Some {
        focused_in_tabs(os[0].tabs@)
    } else {
        focused_in_os_windows(os.drop_first())
    }
}

fn focused_window_index(ws: &Vec<Window>) -> (r: Option<usize>)
    ensures
        match r {
            Some(k) => k < ws@.len() && focused_in_windows(ws@) == Some(ws@[k as int]),
            None => focused_in_windows(ws@) is None,
        },
{
    let mut k: usize = 0;
    assert(ws@.subrange(0, ws@.len() as int) =~= ws@);
    while k < ws.len()
        invariant
            0 <= k <= ws@.len(),
            focused_in_windows(ws@.subrange(k as int, ws@.len() as int)) == focused_in_windows(ws@),
        decreases ws.len() - k,
    {
        assert(ws@.subrange(k as int, ws@.len() as int).drop_first() =~= ws@.subrange(
            k + 1,
            ws@.len() as int,
        ));
        if ws[k].is_focused {
            return Some(k);
        }
        k = k + 1;
    }
    None
}

fn focused_tab_index(tabs: &Vec<Tab>) -> (r: Option<(usize, usize)>)
    ensures
        match r {
            Some((j, k)) => j < tabs@.len() && k < tabs@[j as int].windows@.len()
                && focused_in_tabs(tabs@) == Some(tabs@[j as int].windows@[k as int]),
            None => focused_in_tabs(tabs@) is None,
        },
{
    let mut j: usize = 0;
    assert(tabs@.subrange(0, tabs@.len() as int) =~= tabs@);
    while j < tabs.len()
        invariant
            0 <= j <= tabs@.len(),
            focused_in_tabs(tabs@.subrange(j as int, tabs@.len() as int)) == focused_in_tabs(tabs@),
        decreases tabs.len() - j,
    {
        assert(tabs@.subrange(j as int, tabs@.len() as int).drop_first() =~= tabs@.subrange(
            j + 1,
            tabs@.len() as int,
        ));
        if tabs[j].is_focused {
            if let Some(k) = focused_window_index(&tabs[j].windows) {
                return Some((j, k));
            }
        }
        j = j + 1;
    }
    None
}

fn focused_os_window_index(os: &Vec<OsWindow>) -> (r: Option<(usize, usize, usize)>)
    ensures
        match r {
            Some((i, j, k)) => i < os@.len() && j < os@[i as int].tabs@.len() && k
                < os@[i as int].tabs@[j as int].windows@.len() && focused_in_os_windows(os@)
                == Some(os@[i as int].tabs@[j as int].windows@[k as int]),
            None => focused_in_os_windows(os@) is None,
        },
{
    let mut i: usize = 0;
    assert(os@.subrange(0, os@.len() as int) =~= os@);
    while i < os.len()
        invariant
            0 <= i <= os@.len(),
            focused_in_os_windows(os@.subrange(i as int, os@.len() as int))
                == focused_in_os_windows(os@),
        decreases os.len() - i,
    {
        assert(os@.subrange(i as int, os@.len() as int).drop_first() =~= os@.subrange(
            i + 1,
            os@.len() as int,
        ));
        if os[i].is_focused {
            if let Some((j, k)) = focused_tab_index(&os[i].tabs) {
                return Some((i, j, k));
            }
        }
        i = i + 1;
    }
    None
}

/// The focused window of the terminal's listing: in the first focused OS
/// window that has one, the first focused tab that has one, the first
/// focused window.
pub fn find_kitty_focused_window(windows: Vec<OsWindow>) -> (r: Option<Window>)
    ensures
        r == focused_in_os_windows(windows@),
{
    let mut windows = windows;
    match focused_os_window_index(&windows) {
        Some((i, j, k)) => {
            let mut os = windows.remove(i);
            let mut tab = os.tabs.remove(j);
            Some(tab.windows.remove(k))
        },
        None => None,
    }
}


/// `P@kitty-cmd`, the marker after the escape byte that opens a message.
pub open spec fn kitty_cmd_marker() -> Seq<u8> {
    seq![80u8, 64u8, 107u8, 105u8, 116u8, 116u8, 121u8, 45u8, 99u8, 109u8, 100u8]
}

/// A remote-control message: escape, marker, payload, escape, backslash.
pub open spec fn command_frame(payload: Seq<u8>) -> Seq<u8> {
    seq![0x1bu8] + kitty_cmd_marker() + payload + seq![0x1bu8, 0x5cu8]
}

/// What is wrong with a reply's framing.
#[derive(Clone, Copy, Debug, PartialEq, Eq)]
pub enum FrameError {
    /// The reply does not open with the escape byte.
    InvalidHeadEscape,
    /// The escape byte is not followed by the marker.
    InvalidHeadSequence,
    /// An escape byte inside the reply is not followed by a backslash.
    InvalidTailEscape,
}

fn marker() -> (r: Vec<u8>)
    ensures
        r@ == kitty_cmd_marker(),
{
    let r = vec![80u8, 64u8, 107u8, 105u8, 116u8, 116u8, 121u8, 45u8, 99u8, 109u8, 100u8];
    assert(r@ =~= kitty_cmd_marker());
    r
}

/// Frames a command's JSON text for the terminal's socket.
pub fn frame_command(payload: &[u8]) -> (r: Vec<u8>)
    ensures
        r@ == command_frame(payload@),
{
    let mut out: Vec<u8> = Vec::new();
    out.push(0x1b);
    let mut head = marker();
    out.append(&mut head);
    let mut i: usize = 0;
    while i < payload.len()
        invariant
            0 <= i <= payload@.len(),
            out@ == seq![0x1bu8] + kitty_cmd_marker() + payload@.subrange(0, i as int),
        decreases payload.len() - i,
    {
        out.push(payload[i]);
        i = i + 1;
        assert(out@ =~= seq![0x1bu8] + kitty_cmd_marker() + payload@.subrange(0, i as int));
    }
    out.push(0x1b);
    out.push(0x5c);
    assert(payload@.subrange(0, i as int) =~= payload@);
    assert(out@ =~= command_frame(payload@));
    out
}

/// Checks the twelve bytes that open a reply: the escape byte, then the
/// marker.
pub fn check_response_head(head: &[u8]) -> (r: Result<(), FrameError>)
    requires
        head@.len() == 12,
    ensures
        r == if head@[0] != 0x1b {
            Err(FrameError::InvalidHeadEscape)
        } else if head@.subrange(1, 12) != kitty_cmd_marker() {
            Err(FrameError::InvalidHeadSequence)
        } else {
            Ok(())
        },
{
    if head[0] != 0x1b {
        return Err(FrameError::InvalidHeadEscape);
    }
    let m = marker();
    let mut i: usize = 0;
    while i < 11
        invariant
            head@.len() == 12,
            head@[0] == 0x1b,
            m@ == kitty_cmd_marker(),
            0 <= i <= 11,
            forall|j: int| 0 <= j < i ==> head@[j + 1] == m@[j],
        decreases 11 - i,
    {
        if head[i + 1] != m[i] {
            assert(head@.subrange(1, 12)[i as int] == head@[i + 1]);
            assert(m@[i as int] == kitty_cmd_marker()[i as int]);
            assert(head@.subrange(1, 12)[i as int] != kitty_cmd_marker()[i as int]);
            assert(head@.subrange(1, 12) != kitty_cmd_marker());
            return Err(FrameError::InvalidHeadSequence);
        }
        i = i + 1;
    }
    assert(head@.subrange(1, 12) =~= kitty_cmd_marker());
    Ok(())
}

/// What decoding a reply's body does after one more byte.
#[derive(Clone, Copy, Debug, PartialEq, Eq)]
pub enum BodyStep {
    /// Read on.
    More,
    /// The closing escape and backslash were read: the body is complete.
    End,
    /// An escape byte was followed by something else than a backslash.
    InvalidTail,
}

/// The body of a reply read so far: the bytes before its closing escape.
pub struct ResponseBody {
    pub data: Vec<u8>,
    pub escaped: bool,
}

impl ResponseBody {
    pub fn new() -> (r: ResponseBody)
        ensures
            r.data@.len() == 0,
            !r.escaped,
    {
        ResponseBody { data: Vec::new(), escaped: false }
    }

    /// Takes the next byte after the head. An escape byte is held back;
    /// after it a backslash ends the body and any other byte is an error.
    /// Every other byte belongs to the body.
    pub fn push(&mut self, byte: u8) -> (r: BodyStep)
        ensures
            old(self).escaped ==> {
                &&& r == if byte == 0x5c { BodyStep::End } else { BodyStep::InvalidTail }
                &&& final(self).data@ == old(self).data@
            },
            !old(self).escaped && byte == 0x1b ==> {
                &&& r == BodyStep::More
                &&& final(self).escaped
                &&& final(self).data@ == old(self).data@
            },
            !old(self).escaped && byte != 0x1b ==> {
                &&& r == BodyStep::More
                &&& !final(self).escaped
                &&& final(self).data@ == old(self).data@.push(byte)
            },
    {
        if self.escaped {
            if byte == 0x5c {
                BodyStep::End
            } else {
                BodyStep::InvalidTail
            }
        } else if byte == 0x1b {
            self.escaped = true;
            BodyStep::More
        } else {
            self.data.push(byte);
            BodyStep::More
        }
    }
}

} // verus!
