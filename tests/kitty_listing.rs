use niri_launcher::kitty::{find_kitty_focused_window, Action, Ls, OsWindow, Tab, Window};
use std::collections::HashMap;

fn window(focused: bool, cwd: &str) -> Window {
    Window {
        is_active: focused,
        is_focused: focused,
        cmdline: vec!["zsh".to_string()],
        cwd: cwd.to_string(),
        env: HashMap::new(),
        foreground_processes: vec![],
    }
}

fn tab(focused: bool, windows: Vec<Window>) -> Tab {
    Tab { is_active: focused, is_focused: focused, windows }
}

fn os(focused: bool, tabs: Vec<Tab>) -> OsWindow {
    OsWindow { is_active: focused, is_focused: focused, tabs }
}

#[test]
fn focused_window_of_focused_tab() {
    let listing = vec![
        os(false, vec![tab(true, vec![window(true, "/a")])]),
        os(true, vec![
            tab(false, vec![window(true, "/b")]),
            tab(true, vec![window(false, "/c"), window(true, "/d")]),
        ]),
    ];
    let w = find_kitty_focused_window(listing).unwrap();
    assert_eq!(w.cwd, "/d");
}

#[test]
fn focused_tab_without_focused_window_is_skipped() {
    let listing = vec![os(true, vec![
        tab(true, vec![window(false, "/a")]),
        tab(true, vec![window(true, "/b")]),
    ])];
    assert_eq!(find_kitty_focused_window(listing).unwrap().cwd, "/b");
}

#[test]
fn nothing_focused() {
    let listing = vec![os(false, vec![tab(true, vec![window(true, "/a")])])];
    assert!(find_kitty_focused_window(listing).is_none());
    assert!(find_kitty_focused_window(vec![]).is_none());
}

#[test]
fn commands_default_to_empty() {
    let ls = Ls::default();
    assert!(ls.all_env_vars.is_none() && ls.match_window.is_none());
    let action = Action::default();
    assert!(action.action.is_empty() && action.self_window.is_none());
}
