use vstd::prelude::*;
use crate::node::{Node, ancestry, grids_of};
use crate::state::State;

verus! {

/// The moves found by a search, held as the node that reached the goal; the
/// states are read off its ancestry on demand.
#[derive(Debug)]
pub struct Path {
    node: Node,
}

impl View for Path {
    type V = Seq<Node>;

    /// The nodes from the root to the last one.
    closed spec fn view(&self) -> Seq<Node> {
        ancestry(self.node)
    }
}

/// Appends the ancestry of `n`, root first, to `out`.
fn collect<'a>(n: &'a Node, out: &mut Vec<&'a Node>)
    ensures
        final(out)@.map_values(|m: &Node| *m) == old(out)@.map_values(|m: &Node| *m) + ancestry(*n),
    decreases n,
{
    match &n.parent {
        Some(p) => {
            let q: &Node = &**p;
            collect(q, out);
        },
        None => {},
    }
    let ghost before = out@;
    out.push(n);
    assert(out@.map_values(|m: &Node| *m) =~= before.map_values(|m: &Node| *m).push(*n));
    assert(n.parent is Some ==> ancestry(*n) == ancestry(*(n.parent->0)).push(*n));
    assert(out@.map_values(|m: &Node| *m) =~= old(out)@.map_values(|m: &Node| *m) + ancestry(*n));
}

impl Path {
    /// The path that ends at `node`.
    pub fn from(node: &Node) -> (r: Path)
        ensures
            r@ == ancestry(*node),
    {
        Path { node: node.share() }
    }

    /// The nodes from the root to the last one.
    pub fn to_vec_nodes(&self) -> (r: Vec<&Node>)
        ensures
            r@.map_values(|m: &Node| *m) == self@,
    {
        let mut r: Vec<&Node> = Vec::new();
        collect(&self.node, &mut r);
        assert(r@.map_values(|m: &Node| *m) =~= self@);
        r
    }

    /// The states from the first to the last.
    pub fn to_vec_states(&self) -> (r: Vec<&State>)
        ensures
            r@.map_values(|s: &State| s@) == grids_of(self@),
    {
        let nodes = self.to_vec_nodes();
        let mut r: Vec<&State> = Vec::new();
        let mut i: usize = 0;
        while i < nodes.len()
            invariant
                i <= nodes@.len(),
                nodes@.map_values(|m: &Node| *m) == self@,
                r@.len() == i,
                forall|k: int| 0 <= k < i ==> #[trigger] r@[k]@ == nodes@[k].state@,
            decreases nodes@.len() - i,
        {
            let n: &Node = nodes[i];
            r.push(&n.state);
            i += 1;
        }
        assert forall|k: int| 0 <= k < r@.len() implies r@.map_values(|s: &State| s@)[k]
            == grids_of(self@)[k] by {
            assert(r@.map_values(|s: &State| s@)[k] == r@[k]@);
            assert(nodes@.map_values(|m: &Node| *m)[k] == *nodes@[k]);
        }
        assert(r@.map_values(|s: &State| s@) =~= grids_of(self@));
        r
    }
}

} // verus!
