//! Search of a process tree for the first process whose editor socket
//! accepts a connection.
//!
//! The search decides; its caller connects. [`SessionDiscovery::probe`]
//! names the pid to try next, the caller reports what the connection
//! attempt gave, and [`SessionDiscovery::report`] says what to do next.

use vstd::prelude::*;
use crate::pstree::ProcessTreeNode;

verus! {

/// The pids of the tree below `node`, depth first, parents before their
/// children, children in order.
pub open spec fn preorder(node: ProcessTreeNode) -> Seq<i32>
    decreases node, 1int, 0int,
{
    seq![node.record.pid] + preorder_children(node, 0)
}

/// The pre-order pids of the subtrees of `node`'s children from `i` on.
pub open spec fn preorder_children(node: ProcessTreeNode, i: int) -> Seq<i32>
    decreases node, 0int, node.children@.len() - i,
{
    if 0 <= i < node.children@.len() {
        preorder(node.children@[i]) + preorder_children(node, i + 1)
    } else {
        Seq::empty()
    }
}

/// The pids to probe, in the order of the search.
pub fn search_order(node: &ProcessTreeNode) -> (r: Vec<i32>)
    ensures
        r@ == preorder(*node),
    decreases node,
{
    let mut out: Vec<i32> = Vec::new();
    out.push(node.record.pid);
    let mut i: usize = 0;
    while i < node.children.len()
        invariant
            0 <= i <= node.children@.len(),
            out@ + preorder_children(*node, i as int) == preorder(*node),
        decreases node.children.len() - i,
    {
        let mut sub = search_order(&node.children[i]);
        proof {
            assert(out@ + preorder_children(*node, i as int) =~= (out@ + sub@)
                + preorder_children(*node, i + 1));
        }
        out.append(&mut sub);
        i = i + 1;
    }
    proof {
        assert(preorder_children(*node, i as int) =~= Seq::<i32>::empty());
        assert(out@ + Seq::<i32>::empty() =~= out@);
    }
    out
}

/// What the caller of the search is to do next.
pub enum DiscoveryStep<S, E> {
    /// Try to connect to the socket of this pid.
    Probe(i32),
    /// A connection succeeded: this is the session.
    Found(S),
    /// No process of the tree accepted a connection: the root's own error.
    NotFound(E),
}

/// One step of the search at `position` of `order`, with the error that the
/// root's attempt gave: the new position, the error kept, and what to do
/// next. A session ends the search; a failure moves on, and after the last
/// pid the search fails with the root's error.
pub open spec fn next_step<S, E>(
    order: Seq<i32>,
    position: int,
    root_error: Option<E>,
    outcome: Result<S, E>,
) -> (int, Option<E>, DiscoveryStep<S, E>) {
    match outcome {
        Ok(s) => (order.len() as int, root_error, DiscoveryStep::Found(s)),
        Err(e) => {
            let root_err = if position == 0 {
                e
            } else {
                root_error->Some_0
            };
            if position + 1 < order.len() {
                (position + 1, Some(root_err), DiscoveryStep::Probe(order[position + 1]))
            } else {
                (position + 1, None, DiscoveryStep::NotFound(root_err))
            }
        },
    }
}

/// State of one search: the pids in search order, how many were tried,
/// and the error that the root's attempt gave.
pub struct SessionDiscovery<E> {
    order: Vec<i32>,
    position: usize,
    root_error: Option<E>,
}

impl<E> SessionDiscovery<E> {
    pub closed spec fn order(&self) -> Seq<i32> {
        self.order@
    }

    /// How many pids were tried; the search is over once it reaches the
    /// length of the order.
    pub closed spec fn position(&self) -> int {
        self.position as int
    }

    pub closed spec fn root_error(&self) -> Option<E> {
        self.root_error
    }

    /// A search over the tree below `root`, which starts at `root` itself.
    pub fn new(root: &ProcessTreeNode) -> (r: Self)
        ensures
            r.order() == preorder(*root),
            r.order().len() > 0,
            r.order()[0] == root.record.pid,
            r.position() == 0,
            r.root_error() is None,
    {
        let order = search_order(root);
        SessionDiscovery { order, position: 0, root_error: None }
    }

    pub fn is_finished(&self) -> (r: bool)
        ensures
            r == (self.position() >= self.order().len()),
    {
        self.position >= self.order.len()
    }

    /// The pid whose socket is to be tried now.
    pub fn probe(&self) -> (r: i32)
        requires
            self.position() < self.order().len(),
        ensures
            r == self.order()[self.position()],
    {
        self.order[self.position]
    }

    /// Takes the outcome of the attempt on [`Self::probe`]'s pid. A session
    /// ends the search with it. A failure moves on to the next pid; after
    /// the last one the search fails with the root's error, whatever the
    /// descendants' attempts gave.
    pub fn report<S>(&mut self, outcome: Result<S, E>) -> (r: DiscoveryStep<S, E>)
        requires
            old(self).position() < old(self).order().len(),
            old(self).position() > 0 ==> old(self).root_error() is Some,
        ensures
            final(self).order() == old(self).order(),
            (final(self).position(), final(self).root_error(), r) == next_step(
                old(self).order(),
                old(self).position(),
                old(self).root_error(),
                outcome,
            ),
    {
        match outcome {
            Ok(s) => {
                self.position = self.order.len();
                DiscoveryStep::Found(s)
            },
            Err(e) => {
                let first = self.position == 0;
                let n = self.order.len();
                self.position = self.position + 1;
                if self.position < n {
                    if first {
                        self.root_error = Some(e);
                    }
                    DiscoveryStep::Probe(self.order[self.position])
                } else if first {
                    self.root_error = None;
                    DiscoveryStep::NotFound(e)
                } else {
                    match self.root_error.take() {
                        Some(root_err) => DiscoveryStep::NotFound(root_err),
                        // not reached: the root's error is kept from the first failure on
                        None => DiscoveryStep::NotFound(e),
                    }
                }
            },
        }
    }
}

/// The decimal digits of `n`, most significant first.
pub open spec fn decimal(n: nat) -> Seq<u8>
    decreases n,
{
    if n < 10 {
        seq![(n + 48) as u8]
    } else {
        decimal(n / 10).push((n % 10 + 48) as u8)
    }
}

/// `n` in decimal, with a leading `-` when negative.
pub open spec fn signed_decimal(n: int) -> Seq<u8> {
    if n < 0 {
        seq![45u8] + decimal((-n) as nat)
    } else {
        decimal(n as nat)
    }
}

/// `<runtime dir of uid>/nvim.<pid>.0`, the runtime directory being
/// `/run/user/<uid>`.
pub open spec fn editor_socket_path_of(uid: u32, pid: i32) -> Seq<u8> {
    seq![47u8, 114u8, 117u8, 110u8, 47u8, 117u8, 115u8, 101u8, 114u8, 47u8] + decimal(uid as nat) + seq![
        47u8,
        110u8,
        118u8,
        105u8,
        109u8,
        46u8,
    ] + signed_decimal(pid as int) + seq![46u8, 48u8]
}

fn push_decimal(out: &mut Vec<u8>, n: u64)
    ensures
        final(out)@ == old(out)@ + decimal(n as nat),
    decreases n,
{
    if n >= 10 {
        push_decimal(out, n / 10);
    }
    out.push((n % 10 + 48) as u8);
    proof {
        if n < 10 {
            assert(decimal(n as nat) =~= seq![(n + 48) as u8]);
        }
    }
    assert(out@ =~= old(out)@ + decimal(n as nat));
}

fn push_bytes(out: &mut Vec<u8>, bytes: &[u8])
    ensures
        final(out)@ == old(out)@ + bytes@,
{
    let mut i: usize = 0;
    while i < bytes.len()
        invariant
            0 <= i <= bytes@.len(),
            out@ == old(out)@ + bytes@.subrange(0, i as int),
        decreases bytes.len() - i,
    {
        out.push(bytes[i]);
        i = i + 1;
        assert(out@ =~= old(out)@ + bytes@.subrange(0, i as int));
    }
    assert(bytes@.subrange(0, i as int) =~= bytes@);
}

/// The path of the editor socket of process `pid` run by user `uid`.
pub fn editor_socket_path(uid: u32, pid: i32) -> (r: Vec<u8>)
    ensures
        r@ == editor_socket_path_of(uid, pid),
{
    let mut out: Vec<u8> = Vec::new();
    let head: [u8; 10] = [47u8, 114u8, 117u8, 110u8, 47u8, 117u8, 115u8, 101u8, 114u8, 47u8];
    push_bytes(&mut out, &head);
    push_decimal(&mut out, uid as u64);
    let mid: [u8; 6] = [47u8, 110u8, 118u8, 105u8, 109u8, 46u8];
    push_bytes(&mut out, &mid);
    let ghost before_pid = out@;
    if pid < 0 {
        out.push(45u8);
        push_decimal(&mut out, (-(pid as i64)) as u64);
        assert(out@ =~= before_pid + signed_decimal(pid as int));
    } else {
        push_decimal(&mut out, pid as u64);
    }
    let tail: [u8; 2] = [46u8, 48u8];
    push_bytes(&mut out, &tail);
    assert(head@ =~= seq![47u8, 114u8, 117u8, 110u8, 47u8, 117u8, 115u8, 101u8, 114u8, 47u8]);
    assert(mid@ =~= seq![47u8, 110u8, 118u8, 105u8, 109u8, 46u8]);
    assert(tail@ =~= seq![46u8, 48u8]);
    assert(out@ =~= editor_socket_path_of(uid, pid));
    out
}


/// Where a search from `position` ends when the attempts give `outcomes`,
/// one after the other, for as long as it asks for more.
pub open spec fn drive<S, E>(
    order: Seq<i32>,
    position: int,
    root_error: Option<E>,
    outcomes: Seq<Result<S, E>>,
) -> DiscoveryStep<S, E>
    decreases outcomes.len(),
{
    if outcomes.len() == 0 {
        DiscoveryStep::Probe(order[position])
    } else {
        let (p, kept, step) = next_step(order, position, root_error, outcomes[0]);
        if outcomes.len() > 1 && step is Probe {
            drive(order, p, kept, outcomes.drop_first())
        } else {
            step
        }
    }
}

/// The session of the first attempt that succeeded, if any.
pub open spec fn first_session<S, E>(outcomes: Seq<Result<S, E>>) -> Option<S>
    decreases outcomes.len(),
{
    if outcomes.len() == 0 {
        None
    } else {
        match outcomes[0] {
            Ok(s) => Some(s),
            Err(_) => first_session(outcomes.drop_first()),
        }
    }
}

proof fn lemma_drive_from<S, E>(
    order: Seq<i32>,
    position: int,
    root_error: Option<E>,
    outcomes: Seq<Result<S, E>>,
)
    requires
        0 <= position < order.len(),
        outcomes.len() == order.len() - position,
        position > 0 ==> root_error is Some,
    ensures
        drive(order, position, root_error, outcomes) == match first_session(outcomes) {
            Some(s) => DiscoveryStep::<S, E>::Found(s),
            None => DiscoveryStep::<S, E>::NotFound(
                if position == 0 {
                    outcomes[0]->Err_0
                } else {
                    root_error->Some_0
                },
            ),
        },
    decreases outcomes.len(),
{
    let (p, kept, step) = next_step(order, position, root_error, outcomes[0]);
    let rest = outcomes.drop_first();
    match outcomes[0] {
        Ok(_) => {},
        Err(_) => {
            assert(first_session(outcomes) == first_session(rest));
            if outcomes.len() > 1 {
                assert(step is Probe);
                lemma_drive_from(order, p, kept, rest);
            } else {
                assert(first_session(rest) is None);
            }
        },
    }
}

/// A search over a tree, each pid's attempt giving the outcome at its
/// place in the search order, returns the session of the first attempt
/// that succeeds; where none does, it fails with the root's own error,
/// whatever its descendants' attempts gave.
pub proof fn lemma_search_finds_first_session<S, E>(
    root: ProcessTreeNode,
    outcomes: Seq<Result<S, E>>,
)
    requires
        outcomes.len() == preorder(root).len(),
    ensures
        drive(preorder(root), 0, None, outcomes) == match first_session(outcomes) {
            Some(s) => DiscoveryStep::<S, E>::Found(s),
            None => DiscoveryStep::<S, E>::NotFound(outcomes[0]->Err_0),
        },
{
    assert(preorder(root).len() > 0);
    lemma_drive_from(preorder(root), 0, None, outcomes);
}

} // verus!
