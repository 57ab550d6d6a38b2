use niri_launcher::discovery::{editor_socket_path, search_order, DiscoveryStep, SessionDiscovery};
use niri_launcher::niri_multi_socket::MultiSocket;
use niri_launcher::pstree::{build_process_tree, ProcessRecord, ProcessTreeNode};

fn rec(pid: i32, ppid: i32) -> ProcessRecord {
    ProcessRecord { pid, ppid }
}

/// root 100 -> child 200 -> grandchild 300; root -> child 400
fn tree() -> ProcessTreeNode {
    let records = vec![rec(200, 100), rec(300, 200), rec(400, 100)];
    build_process_tree(Some(100), &records).root
}

/// Drives a search, connecting only to the pids in `live`.
fn run(root: &ProcessTreeNode, live: &[i32]) -> (Result<String, String>, Vec<i32>) {
    let mut search = SessionDiscovery::new(root);
    let mut tried = Vec::new();
    let mut pid = search.probe();
    loop {
        tried.push(pid);
        let outcome = if live.contains(&pid) {
            Ok(format!("session {pid}"))
        } else {
            Err(format!("no socket for {pid}"))
        };
        match search.report(outcome) {
            DiscoveryStep::Probe(next) => pid = next,
            DiscoveryStep::Found(s) => return (Ok(s), tried),
            DiscoveryStep::NotFound(e) => return (Err(e), tried),
        }
    }
}

#[test]
fn search_order_is_depth_first() {
    assert_eq!(search_order(&tree()), vec![100, 200, 300, 400]);
}

#[test]
fn grandchild_session_is_found() {
    let (res, tried) = run(&tree(), &[300]);
    assert_eq!(res, Ok("session 300".to_string()));
    assert_eq!(tried, vec![100, 200, 300]);
}

#[test]
fn root_session_is_found_first() {
    let (res, tried) = run(&tree(), &[100, 300]);
    assert_eq!(res, Ok("session 100".to_string()));
    assert_eq!(tried, vec![100]);
}

#[test]
fn failure_carries_the_root_error() {
    let (res, tried) = run(&tree(), &[]);
    assert_eq!(res, Err("no socket for 100".to_string()));
    assert_eq!(tried, vec![100, 200, 300, 400]);
}

#[test]
fn lone_root_failure() {
    let root = build_process_tree(Some(7), &vec![]).root;
    let mut search: SessionDiscovery<&str> = SessionDiscovery::new(&root);
    assert!(!search.is_finished());
    assert_eq!(search.probe(), 7);
    match search.report::<()>(Err("refused")) {
        DiscoveryStep::NotFound(e) => assert_eq!(e, "refused"),
        _ => panic!("expected the root error"),
    }
    assert!(search.is_finished());
}

#[test]
fn socket_path_of_pid() {
    let path = String::from_utf8(editor_socket_path(1000, 4321)).unwrap();
    assert_eq!(path, "/run/user/1000/nvim.4321.0");
    let path = String::from_utf8(editor_socket_path(0, -1)).unwrap();
    assert_eq!(path, "/run/user/0/nvim.-1.0");
    let path = String::from_utf8(editor_socket_path(u32::MAX, i32::MIN)).unwrap();
    assert_eq!(path, "/run/user/4294967295/nvim.-2147483648.0");
}

#[test]
fn multi_socket_keeps_path() {
    let s = MultiSocket::connect_to("/run/user/1000/niri.sock");
    assert_eq!(s.path(), "/run/user/1000/niri.sock");
}
