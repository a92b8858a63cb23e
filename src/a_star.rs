use vstd::prelude::*;
use std::collections::HashSet;
use std::rc::Rc;
use crate::frontier::Frontier;
use crate::node::{Node, ancestry, chain, grids_of};
use crate::parity::{lemma_parity_separates, tile_parity};
use crate::path::Path;
use crate::state::{
    State,
    KEY_BOUND,
    adjacent,
    immediate_neighbours,
    is_move_path,
    key_of,
    lemma_key_injective,
    lemma_neighbors_valid,
    neighbors,
    reachable,
    valid_cells,
};

verus! {

broadcast use vstd::std_specs::hash::group_hash_axioms;

/// The largest estimate a heuristic may give, so that `g + h` always fits.
pub const MAX_ESTIMATE: u64 = 18_000_000_000_000_000_000;

/// Every closed grid has each of its neighbours closed or open, leaving out
/// the grid with key `skip`.
#[verifier::opaque]
pub open spec fn expanded_except(closed: Set<u64>, open: Map<u64, Node>, skip: int) -> bool {
    forall|s: Seq<u8>|
        #![trigger closed.contains(key_of(s))]
        valid_cells(s) && closed.contains(key_of(s)) && key_of(s) != skip ==> forall|j: int|
            0 <= j < neighbors(s).len() ==> closed.contains(key_of(#[trigger] neighbors(s)[j]))
                || open.contains_key(key_of(neighbors(s)[j]))
}

/// A node whose ancestry is a sequence of moves from `start` to its state.
#[verifier::opaque]
pub open spec fn leads_from(n: Node, start: Seq<u8>) -> bool {
    &&& is_move_path(chain(n))
    &&& chain(n)[0] == start
    &&& chain(n).last() == n.state@
    &&& valid_cells(n.state@)
    &&& n.g + 1 == chain(n).len()
}

/// A finite set of numbers below `n` has at most `n` members.
proof fn lemma_bounded_len(s: Set<u64>, n: u64)
    requires
        s.finite(),
        forall|x: u64| s.contains(x) ==> x < n,
    ensures
        s.len() <= n,
    decreases n,
{
    if n == 0 {
        assert(s =~= Set::empty());
    } else {
        let t = s.remove((n - 1) as u64);
        lemma_bounded_len(t, (n - 1) as u64);
    }
}

/// When every neighbour of a closed grid is closed, whatever is reachable from
/// a closed grid is closed.
proof fn lemma_closed_reach(closed: Set<u64>, p: Seq<Seq<u8>>, i: int)
    requires
        is_move_path(p),
        0 <= i < p.len(),
        valid_cells(p[0]),
        closed.contains(key_of(p[0])),
        expanded_except(closed, Map::empty(), -1),
    ensures
        valid_cells(p[i]),
        closed.contains(key_of(p[i])),
    decreases i,
{
    reveal(expanded_except);
    if i > 0 {
        lemma_closed_reach(closed, p, i - 1);
        assert(adjacent(p[i - 1], p[i]));
        let j = choose|j: int| 0 <= j < neighbors(p[i - 1]).len() && #[trigger] neighbors(p[i - 1])[j] == p[i];
        lemma_neighbors_valid(p[i - 1]);
        assert(valid_cells(neighbors(p[i - 1])[j]));
    }
}

/// A path that is one move longer.
proof fn lemma_extend(p: Seq<Seq<u8>>, s: Seq<u8>)
    requires
        is_move_path(p),
        adjacent(p.last(), s),
    ensures
        is_move_path(p.push(s)),
        p.push(s)[0] == p[0],
        p.push(s).last() == s,
{
    let q = p.push(s);
    assert forall|i: int| 0 <= i < q.len() - 1 implies adjacent(#[trigger] q[i], q[i + 1]) by {
        if i < p.len() - 1 {
            assert(q[i] == p[i] && q[i + 1] == p[i + 1]);
        }
    }
}

/// Closing the grid with key `k` and taking it off the open list keeps every
/// other closed grid expanded.
proof fn lemma_close(closed: Set<u64>, open: Map<u64, Node>, k: u64)
    requires
        expanded_except(closed, open, -1),
    ensures
        expanded_except(closed.insert(k), open.remove(k), k as int),
{
    reveal(expanded_except);
    let c2 = closed.insert(k);
    let o2 = open.remove(k);
    assert forall|s: Seq<u8>|
        #![trigger c2.contains(key_of(s))]
        valid_cells(s) && c2.contains(key_of(s)) && key_of(s) != k as int implies forall|j: int|
        0 <= j < neighbors(s).len() ==> c2.contains(key_of(#[trigger] neighbors(s)[j]))
            || o2.contains_key(key_of(neighbors(s)[j])) by {
        assert(closed.contains(key_of(s)));
    }
}

/// Once the grid with key `k` has its neighbours closed or open, every closed
/// grid is expanded; growing the open list keeps that.
proof fn lemma_reopen(
    closed: Set<u64>,
    open: Map<u64, Node>,
    later: Map<u64, Node>,
    n: Seq<u8>,
)
    requires
        expanded_except(closed, open, key_of(n) as int),
        valid_cells(n),
        forall|c: u64| #[trigger] open.contains_key(c) ==> later.contains_key(c),
        forall|i: int|
            0 <= i < neighbors(n).len() ==> closed.contains(key_of(#[trigger] neighbors(n)[i]))
                || later.contains_key(key_of(neighbors(n)[i])),
    ensures
        expanded_except(closed, later, -1),
{
    reveal(expanded_except);
    assert forall|s: Seq<u8>|
        #![trigger closed.contains(key_of(s))]
        valid_cells(s) && closed.contains(key_of(s)) && key_of(s) != -1 implies forall|j: int|
        0 <= j < neighbors(s).len() ==> closed.contains(key_of(#[trigger] neighbors(s)[j]))
            || later.contains_key(key_of(neighbors(s)[j])) by {
        if key_of(s) == key_of(n) {
            lemma_key_injective(s, n);
        } else {
            assert forall|j: int| 0 <= j < neighbors(s).len() implies closed.contains(
                key_of(#[trigger] neighbors(s)[j]),
            ) || later.contains_key(key_of(neighbors(s)[j])) by {
                if !closed.contains(key_of(neighbors(s)[j])) {
                    assert(open.contains_key(key_of(neighbors(s)[j])));
                }
            }
        }
    }
}

/// With nothing open, a goal that was never closed cannot be reached from a
/// closed start.
proof fn lemma_exhausted(closed: Set<u64>, start: Seq<u8>, goal: Seq<u8>)
    requires
        expanded_except(closed, Map::empty(), -1),
        valid_cells(start),
        closed.contains(key_of(start)),
        !closed.contains(key_of(goal)),
    ensures
        !reachable(start, goal),
{
    if reachable(start, goal) {
        let p = choose|p: Seq<Seq<u8>>| #[trigger] is_move_path(p) && p[0] == start && p.last() == goal;
        lemma_closed_reach(closed, p, p.len() - 1);
    }
}

/// The root of a search.
fn start_node(s: &State, h: u64) -> (r: Node)
    ensures
        r.g == 0,
        r.f == h,
        r.parent is None,
        r.state == *s,
{
    Node::new(0, h, None, s)
}

/// The nodes one move beyond `node`, in the order up, down, left, right, each
/// with cost one more and `node` as its parent.
fn generate_successors<H>(node: Node, goal: &State, h: &H) -> (r: Vec<Node>)
    where
        H: Fn(&State, &State) -> u64,
    requires
        node.g <= KEY_BOUND,
        forall|a: &State, b: &State| h.requires((a, b)),
        forall|a: &State, b: &State, e: u64| h.ensures((a, b), e) ==> e <= MAX_ESTIMATE,
    ensures
        r@.len() == neighbors(node.state@).len(),
        forall|i: int|
            0 <= i < r@.len() ==> {
                &&& (#[trigger] r@[i]).state@ == neighbors(node.state@)[i]
                &&& valid_cells(r@[i].state@)
                &&& r@[i].g == node.g + 1
                &&& h.ensures((&r@[i].state, goal), (r@[i].f - r@[i].g) as u64)
                &&& r@[i].parent matches Some(p) && *p == node
            },
{
    let ghost original = node;
    let states = immediate_neighbours(&node.state);
    let g = node.g + 1;
    let parent = Rc::new(node);
    let mut r: Vec<Node> = Vec::new();
    let mut i: usize = 0;
    while i < states.len()
        invariant
            i <= states@.len(),
            g == original.g + 1,
            g <= KEY_BOUND + 1,
            *parent == original,
            states@.map_values(|t: State| t@) == neighbors(original.state@),
            forall|k: int| 0 <= k < states@.len() ==> valid_cells(#[trigger] states@[k]@),
            forall|a: &State, b: &State| h.requires((a, b)),
            forall|a: &State, b: &State, e: u64| h.ensures((a, b), e) ==> e <= MAX_ESTIMATE,
            r@.len() == i,
            forall|k: int|
                0 <= k < i ==> {
                    &&& (#[trigger] r@[k]).state == states@[k]
                    &&& r@[k].g == g
                    &&& h.ensures((&r@[k].state, goal), (r@[k].f - r@[k].g) as u64)
                    &&& r@[k].parent matches Some(p) && *p == original
                },
        decreases states@.len() - i,
    {
        let s = &states[i];
        let e = h(s, goal);
        r.push(Node::new(g, e, Some(Rc::clone(&parent)), s));
        i += 1;
    }
    proof {
        assert forall|k: int| 0 <= k < r@.len() implies (#[trigger] r@[k]).state@ == neighbors(
            original.state@,
        )[k] by {
            assert(states@.map_values(|t: State| t@)[k] == states@[k]@);
        }
    }
    r
}

/// Offers the successors of `parent`, a node just closed, to the frontier,
/// skipping those whose states are closed.
fn expand<H>(
    frontier: &mut Frontier,
    closed: &HashSet<u64>,
    parent: Node,
    goal: &State,
    h: &H,
    start: Ghost<Seq<u8>>,
)
    where
        H: Fn(&State, &State) -> u64,
    requires
        old(frontier).wf(),
        closed@.finite(),
        forall|a: &State, b: &State| h.requires((a, b)),
        forall|a: &State, b: &State, e: u64| h.ensures((a, b), e) ==> e <= MAX_ESTIMATE,
        forall|c: u64| #[trigger] closed@.contains(c) ==> c < KEY_BOUND,
        closed@.len() <= KEY_BOUND,
        forall|c: u64| #[trigger] old(frontier)@.contains_key(c) ==> !closed@.contains(c),
        forall|c: u64| #[trigger]
            old(frontier)@.contains_key(c) ==> leads_from(old(frontier)@[c], start@)
                && old(frontier)@[c].g <= closed@.len(),
        leads_from(parent, start@),
        parent.g < closed@.len(),
    ensures
        final(frontier).wf(),
        forall|c: u64| #[trigger] final(frontier)@.contains_key(c) ==> !closed@.contains(c),
        forall|c: u64| #[trigger]
            final(frontier)@.contains_key(c) ==> leads_from(final(frontier)@[c], start@)
                && final(frontier)@[c].g <= closed@.len(),
        forall|c: u64| #[trigger] old(frontier)@.contains_key(c) ==> final(frontier)@.contains_key(c),
        forall|i: int|
            0 <= i < neighbors(parent.state@).len() ==> closed@.contains(
                key_of(#[trigger] neighbors(parent.state@)[i]),
            ) || final(frontier)@.contains_key(key_of(neighbors(parent.state@)[i])),
{
    let ghost node = parent;
    let mut successors = generate_successors(parent, goal, h);
    let ghost all = successors@;
    let ghost j: int = 0;
    while successors.len() > 0
        invariant
            frontier.wf(),
            forall|c: u64| #[trigger] frontier@.contains_key(c) ==> !closed@.contains(c),
            forall|c: u64| #[trigger]
                frontier@.contains_key(c) ==> leads_from(frontier@[c], start@) && frontier@[c].g
                    <= closed@.len(),
            forall|c: u64| #[trigger] old(frontier)@.contains_key(c) ==> frontier@.contains_key(c),
            leads_from(node, start@),
            node.g < closed@.len(),
            all.len() == neighbors(node.state@).len(),
            0 <= j <= all.len(),
            successors@ == all.subrange(j, all.len() as int),
            forall|i: int|
                0 <= i < all.len() ==> {
                    &&& (#[trigger] all[i]).state@ == neighbors(node.state@)[i]
                    &&& valid_cells(all[i].state@)
                    &&& all[i].g == node.g + 1
                    &&& all[i].parent matches Some(p) && *p == node
                },
            forall|i: int|
                0 <= i < j ==> closed@.contains(key_of(#[trigger] neighbors(node.state@)[i]))
                    || frontier@.contains_key(key_of(neighbors(node.state@)[i])),
        decreases successors@.len(),
    {
        let succ = successors.remove(0);
        assert(succ == all[j]);
        let succ_key = succ.state.key();
        if !closed.contains(&succ_key) {
            proof {
                reveal(leads_from);
                assert(ancestry(succ) == ancestry(node).push(succ));
                assert(chain(succ) =~= chain(node).push(succ.state@));
                assert(neighbors(node.state@)[j] == succ.state@);
                assert(adjacent(chain(node).last(), succ.state@));
                lemma_extend(chain(node), succ.state@);
                assert(leads_from(succ, start@));
            }
            frontier.insert(succ);
        }
        proof {
            j = j + 1;
            assert(successors@ =~= all.subrange(j, all.len() as int));
        }
    }
}

/// Searches for a sequence of moves from `start` to `goal` by A*, guided by
/// the estimate `h`. A state once closed is never reopened, the policy that
/// suits a consistent estimate.
pub fn search<H>(start: &State, goal: &State, h: &H) -> (r: Option<Path>)
    where
        H: Fn(&State, &State) -> u64,
    requires
        forall|a: &State, b: &State| h.requires((a, b)),
        forall|a: &State, b: &State, e: u64| h.ensures((a, b), e) ==> e <= MAX_ESTIMATE,
    ensures
        r matches Some(p) ==> {
            &&& is_move_path(grids_of(p@))
            &&& grids_of(p@)[0] == start@
            &&& grids_of(p@).last() == goal@
            &&& p@.last().g + 1 == p@.len()
        },
        r is None <==> !reachable(start@, goal@),
        start@ == goal@ ==> (r matches Some(p) && grids_of(p@) == seq![start@]),
        tile_parity(start@) != tile_parity(goal@) ==> r is None,
{
    let start_key = start.key();
    let goal_key = goal.key();
    proof {
        if tile_parity(start@) != tile_parity(goal@) {
            lemma_parity_separates(start@, goal@);
        }
    }
    let root = start_node(start, h(start, goal));
    let ghost root_node = root;
    let mut frontier = Frontier::new();
    frontier.insert(root);
    let mut closed: HashSet<u64> = HashSet::new();
    proof {
        reveal(leads_from);
        reveal(expanded_except);
        assert(ancestry(root_node) == seq![root_node]);
        assert(chain(root_node) =~= seq![start@]);
        assert(frontier@.dom() =~= set![start_key]);
    }
    loop
        invariant
            frontier.wf(),
            closed@.finite(),
            valid_cells(start@),
            valid_cells(goal@),
            start_key == key_of(start@),
            goal_key == key_of(goal@),
            forall|a: &State, b: &State| h.requires((a, b)),
            forall|a: &State, b: &State, e: u64| h.ensures((a, b), e) ==> e <= MAX_ESTIMATE,
            forall|c: u64| #[trigger] closed@.contains(c) ==> c < KEY_BOUND,
            forall|c: u64| #[trigger] frontier@.contains_key(c) ==> !closed@.contains(c),
            forall|c: u64| #[trigger]
                frontier@.contains_key(c) ==> leads_from(frontier@[c], start@) && frontier@[c].g
                    <= closed@.len(),
            expanded_except(closed@, frontier@, -1),
            closed@.contains(start_key) || frontier@.contains_key(start_key),
            !closed@.contains(goal_key),
            closed@.len() == 0 ==> frontier@.dom() == set![start_key] && frontier@[start_key].parent is None,
            start@ == goal@ ==> closed@.len() == 0,
            tile_parity(start@) != tile_parity(goal@) ==> !reachable(start@, goal@),
        decreases KEY_BOUND - closed@.len(),
    {
        let ghost open_before = frontier@;
        let ghost closed_before = closed@;
        let popped = frontier.pop_min();
        let node = match popped {
            None => {
                proof {
                    assert(frontier@ =~= Map::<u64, Node>::empty());
                    lemma_exhausted(closed@, start@, goal@);
                }
                return None;
            },
            Some(n) => n,
        };
        let ghost k = key_of(node.state@);
        assert(open_before.contains_key(k));
        if node.state == *goal {
            let path = Path::from(&node);
            proof {
                reveal(leads_from);
                assert(is_move_path(grids_of(path@)));
                if start@ == goal@ {
                    assert(open_before.dom().contains(k));
                    lemma_key_injective(node.state@, start@);
                    assert(ancestry(node) == seq![node]);
                    assert(grids_of(path@) =~= seq![start@]);
                }
            }
            return Some(path);
        }
        let node_key = node.state.key();
        proof {
            reveal(leads_from);
            if start@ == goal@ {
                assert(open_before.dom().contains(k));
                lemma_key_injective(node.state@, start@);
            }
            if node_key == goal_key {
                lemma_key_injective(node.state@, goal@);
            }
            lemma_bounded_len(closed@, KEY_BOUND);
            lemma_close(closed@, open_before, node_key);
        }
        closed.insert(node_key);
        let ghost parent = node;
        let ghost open_after_pop = frontier@;
        assert(closed@ == closed_before.insert(node_key));
        assert(open_after_pop == open_before.remove(node_key));
        proof {
            lemma_bounded_len(closed@, KEY_BOUND);
        }
        expand(&mut frontier, &closed, node, goal, h, Ghost(start@));
        proof {
            lemma_reopen(closed@, open_after_pop, frontier@, parent.state@);
        }
    }
}

} // verus!
