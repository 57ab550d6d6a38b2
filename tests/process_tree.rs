use niri_launcher::pstree::{build_process_tree, ProcessRecord, ProcessTreeNode};

fn rec(pid: i32, ppid: i32) -> ProcessRecord {
    ProcessRecord { pid, ppid }
}

fn pids(node: &ProcessTreeNode) -> Vec<i32> {
    node.children.iter().map(|c| c.record.pid).collect()
}

#[test]
fn tree_below_a_pid() {
    let records = vec![rec(1, 0), rec(10, 1), rec(11, 10), rec(12, 10), rec(13, 11), rec(20, 1)];
    let tree = build_process_tree(Some(10), &records);
    assert_eq!(tree.root.record, rec(10, -1));
    assert_eq!(pids(&tree.root), vec![11, 12]);
    assert_eq!(tree.root.children[0].record, rec(11, 10));
    assert_eq!(pids(&tree.root.children[0]), vec![13]);
    assert_eq!(pids(&tree.root.children[1]), Vec::<i32>::new());
}

#[test]
fn unknown_pid_gives_lone_root() {
    let records = vec![rec(1, 0), rec(2, 1)];
    let tree = build_process_tree(Some(99), &records);
    assert_eq!(tree.root.record, rec(99, -1));
    assert!(tree.root.children.is_empty());
}

#[test]
fn no_pid_starts_at_zero() {
    let records = vec![rec(1, 0), rec(2, 0), rec(3, 1)];
    let tree = build_process_tree(None, &records);
    assert_eq!(tree.root.record, rec(0, -1));
    assert_eq!(pids(&tree.root), vec![1, 2]);
    assert_eq!(pids(&tree.root.children[0]), vec![3]);
}

#[test]
fn self_parented_record_does_not_loop() {
    let records = vec![rec(5, 5)];
    let tree = build_process_tree(Some(5), &records);
    assert_eq!(pids(&tree.root), vec![5]);
    assert!(tree.root.children[0].children.is_empty());
}

#[test]
fn new_node_has_no_children() {
    let node = ProcessTreeNode::new(&rec(3, 2));
    assert_eq!(node.record, rec(3, 2));
    assert!(node.children.is_empty());
}
