use vstd::prelude::*;
use std::rc::Rc;
use crate::state::State;

verus! {

/// A search node: a state, the cost of the path that reached it (`g`), its
/// estimated total cost (`f`), and the node it was reached from.
#[derive(Debug)]
pub struct Node {
    pub g: u64,
    pub f: u64,
    pub parent: Option<Rc<Node>>,
    pub state: State,
}

/// The nodes along the ancestry of `n`, from the root to `n` itself.
pub open spec fn ancestry(n: Node) -> Seq<Node>
    decreases n,
{
    match n.parent {
        Some(p) => ancestry(*p).push(n),
        None => seq![n],
    }
}

/// The grids of a sequence of nodes.
pub open spec fn grids_of(nodes: Seq<Node>) -> Seq<Seq<u8>> {
    nodes.map_values(|m: Node| m.state@)
}

/// The grids along the ancestry of `n`, from the root to `n` itself.
pub open spec fn chain(n: Node) -> Seq<Seq<u8>> {
    grids_of(ancestry(n))
}

/// How many ancestors `n` has.
pub open spec fn depth(n: Node) -> nat
    decreases n,
{
    match n.parent {
        Some(p) => depth(*p) + 1,
        None => 0,
    }
}

impl Node {
    /// A node with cost `g` and estimate `g + h`.
    pub fn new(g: u64, h: u64, parent: Option<Rc<Node>>, state: &State) -> (r: Node)
        requires
            g + h <= u64::MAX,
        ensures
            r.g == g,
            r.f == g + h,
            r.parent == parent,
            r.state == *state,
    {
        Node { g, f: g + h, parent, state: *state }
    }

    /// Another handle on the same node; the ancestry is shared, not copied.
    pub fn share(&self) -> (r: Node)
        ensures
            r == *self,
    {
        let parent = match &self.parent {
            Some(p) => Some(Rc::clone(p)),
            None => None,
        };
        Node { g: self.g, f: self.f, parent, state: self.state }
    }
}

impl PartialEq for Node {
    fn eq(&self, other: &Node) -> (r: bool) {
        self.state == other.state
    }
}

impl vstd::std_specs::cmp::PartialEqSpecImpl for Node {
    open spec fn obeys_eq_spec() -> bool {
        true
    }

    open spec fn eq_spec(&self, other: &Node) -> bool {
        self.state@ == other.state@
    }
}

impl Eq for Node {}

} // verus!
