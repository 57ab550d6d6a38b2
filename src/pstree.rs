//! The tree of processes below a given pid, built from a snapshot of
//! `(pid, parent pid)` records.

use std::collections::HashMap;
use vstd::prelude::*;

verus! {

broadcast use vstd::std_specs::hash::group_hash_axioms;

/// One process at the time the snapshot was taken.
#[derive(Clone, Copy, Debug, PartialEq, Eq)]
pub struct ProcessRecord {
    pub pid: i32,
    pub ppid: i32,
}

/// A process and the subtrees of its children, in snapshot order.
#[derive(Debug)]
pub struct ProcessTreeNode {
    pub record: ProcessRecord,
    pub children: Vec<ProcessTreeNode>,
}

#[derive(Debug)]
pub struct ProcessTree {
    pub root: ProcessTreeNode,
}

/// The records whose parent is `pid`, in snapshot order.
pub open spec fn children_of(records: Seq<ProcessRecord>, pid: i32) -> Seq<ProcessRecord> {
    records.filter(|r: ProcessRecord| r.ppid == pid)
}

/// `node` is the tree of descendants of its record in `records`, followed
/// for at most `depth` generations.
pub open spec fn is_tree_of(node: ProcessTreeNode, records: Seq<ProcessRecord>, depth: nat) -> bool
    decreases depth,
{
    let kids = children_of(records, node.record.pid);
    if depth == 0 {
        node.children@.len() == 0
    } else {
        &&& node.children@.len() == kids.len()
        &&& forall|i: int|
            0 <= i < kids.len() ==> (#[trigger] node.children@[i]).record == kids[i]
                && is_tree_of(node.children@[i], records, (depth - 1) as nat)
    }
}

/// The record of the synthetic root: the queried pid, or 0, with parent -1.
pub open spec fn root_record(pid: Option<i32>) -> ProcessRecord {
    ProcessRecord {
        pid: match pid {
            Some(p) => p,
            None => 0,
        },
        ppid: -1i32,
    }
}

impl ProcessTreeNode {
    pub fn new(record: &ProcessRecord) -> (r: ProcessTreeNode)
        ensures
            r.record == *record,
            r.children@.len() == 0,
    {
        ProcessTreeNode { record: *record, children: Vec::new() }
    }
}

/// The parent index maps each parent pid to its children in snapshot order,
/// and holds no pid without children.
pub open spec fn is_parent_index(
    index: Map<i32, Vec<ProcessRecord>>,
    records: Seq<ProcessRecord>,
) -> bool {
    forall|p: i32|
        {
            &&& index.contains_key(p) ==> index[p]@ == #[trigger] children_of(records, p)
            &&& !index.contains_key(p) ==> children_of(records, p).len() == 0
        }
}

fn populate_node_helper(
    node: &mut ProcessTreeNode,
    ppid_map: &HashMap<i32, Vec<ProcessRecord>>,
    depth: usize,
    Ghost(records): Ghost<Seq<ProcessRecord>>,
)
    requires
        old(node).children@.len() == 0,
        is_parent_index(ppid_map@, records),
    ensures
        final(node).record == old(node).record,
        is_tree_of(*final(node), records, depth as nat),
    decreases depth,
{
    if depth == 0 {
        return;
    }
    let pid = node.record.pid;
    match ppid_map.get(&pid) {
        Some(children) => {
            let ghost kids = children_of(records, pid);
            assert(children@ == kids) by {
                assert(ppid_map@.contains_key(pid));
            }
            let mut i: usize = 0;
            while i < children.len()
                invariant
                    0 <= i <= children@.len(),
                    children@ == kids,
                    node.record.pid == pid,
                    node.record == old(node).record,
                    is_parent_index(ppid_map@, records),
                    depth > 0,
                    node.children@.len() == i,
                    forall|j: int|
                        0 <= j < i ==> (#[trigger] node.children@[j]).record == kids[j]
                            && is_tree_of(node.children@[j], records, (depth - 1) as nat),
                decreases children.len() - i,
            {
                let mut child = ProcessTreeNode::new(&children[i]);
                populate_node_helper(&mut child, ppid_map, depth - 1, Ghost(records));
                node.children.push(child);
                i = i + 1;
            }
            assert(is_tree_of(*node, records, depth as nat));
        },
        None => {
            assert(!ppid_map@.contains_key(pid));
            assert(children_of(records, pid).len() == 0);
            assert(is_tree_of(*node, records, depth as nat));
        },
    }
}

fn populate_node(node: &mut ProcessTreeNode, records: &Vec<ProcessRecord>)
    requires
        old(node).children@.len() == 0,
    ensures
        final(node).record == old(node).record,
        is_tree_of(*final(node), records@, records@.len()),
{
    let mut ppid_map: HashMap<i32, Vec<ProcessRecord>> = HashMap::new();
    let mut k: usize = 0;
    while k < records.len()
        invariant
            0 <= k <= records@.len(),
            is_parent_index(ppid_map@, records@.subrange(0, k as int)),
        decreases records.len() - k,
    {
        let record = records[k];
        let ghost before = records@.subrange(0, k as int);
        let ghost after = records@.subrange(0, k + 1);
        proof {
            assert(after =~= before.push(record));
            assert forall|p: i32|
                children_of(after, p) == if record.ppid == p {
                    children_of(before, p).push(record)
                } else {
                    children_of(before, p)
                } by {
                before.lemma_filter_push(record, |r: ProcessRecord| r.ppid == p);
            }
        }
        let mut siblings = match ppid_map.remove(&record.ppid) {
            Some(v) => v,
            None => Vec::new(),
        };
        siblings.push(record);
        assert(siblings@ == children_of(after, record.ppid));
        ppid_map.insert(record.ppid, siblings);
        assert forall|p: i32| p != record.ppid implies children_of(after, p) == children_of(before, p) by {
            before.lemma_filter_push(record, |r: ProcessRecord| r.ppid == p);
        }
        k = k + 1;
    }
    proof {
        assert(records@.subrange(0, records@.len() as int) =~= records@);
    }
    populate_node_helper(node, &ppid_map, records.len(), Ghost(records@));
}

/// The tree below `pid` (0 where none is given) over the snapshot
/// `records`. Each node's children are the records that name it as parent,
/// in snapshot order; the search descends at most as many generations as
/// there are records, which no chain of distinct processes exceeds.
pub fn build_process_tree(pid: Option<i32>, records: &Vec<ProcessRecord>) -> (tree: ProcessTree)
    ensures
        tree.root.record == root_record(pid),
        is_tree_of(tree.root, records@, records@.len()),
{
    let root_pid = match pid {
        Some(p) => p,
        None => 0,
    };
    let mut tree = ProcessTree { root: ProcessTreeNode::new(&ProcessRecord { pid: root_pid, ppid: -1 }) };
    populate_node(&mut tree.root, records);
    tree
}

} // verus!
