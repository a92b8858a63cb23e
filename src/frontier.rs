use vstd::prelude::*;
use priority_queue::PriorityQueue;
use std::collections::HashMap;
use crate::node::Node;
use crate::state::{State, key_of};

verus! {

broadcast use vstd::std_specs::hash::group_hash_axioms;

#[verifier::external_type_specification]
#[verifier::external_body]
#[verifier::reject_recursive_types(I)]
#[verifier::reject_recursive_types(P)]
#[verifier::reject_recursive_types(H)]
pub struct ExPriorityQueue<I, P, H>(PriorityQueue<I, P, H>);

/// A queue of state keys, prioritised by rank.
pub type KeyQueue = PriorityQueue<u64, u64>;

/// The items of a queue, each with its priority.
pub uninterp spec fn queue_entries(q: KeyQueue) -> Map<u64, u64>;

/// Relies on `PriorityQueue::new`: a new queue holds nothing.
#[verifier::external_body]
fn queue_new() -> (r: KeyQueue)
    ensures
        queue_entries(r).is_empty(),
{
    PriorityQueue::new()
}

/// Relies on `PriorityQueue::push`: the item is queued with the priority, and
/// the priority it had, if it was queued already, is handed back.
#[verifier::external_body]
fn queue_push(q: &mut KeyQueue, item: u64, priority: u64) -> (r: Option<u64>)
    ensures
        queue_entries(*final(q)) == queue_entries(*old(q)).insert(item, priority),
        r == (if queue_entries(*old(q)).contains_key(item) {
            Some(queue_entries(*old(q))[item])
        } else {
            None
        }),
{
    q.push(item, priority)
}

/// Relies on `PriorityQueue::change_priority`: a queued item gets the new
/// priority and its old one is handed back; otherwise nothing changes.
#[verifier::external_body]
fn queue_change_priority(q: &mut KeyQueue, item: u64, priority: u64) -> (r: Option<u64>)
    ensures
        queue_entries(*old(q)).contains_key(item) ==> r == Some(queue_entries(*old(q))[item])
            && queue_entries(*final(q)) == queue_entries(*old(q)).insert(item, priority),
        !queue_entries(*old(q)).contains_key(item) ==> r is None && queue_entries(*final(q))
            == queue_entries(*old(q)),
{
    q.change_priority(&item, priority)
}

/// Relies on `PriorityQueue::pop`: removes and hands back an item of greatest
/// priority (without the priority), or `None` when the queue is empty.
#[verifier::external_body]
fn queue_pop(q: &mut KeyQueue) -> (r: Option<u64>)
    ensures
        r is None ==> queue_entries(*old(q)).is_empty() && queue_entries(*final(q))
            == queue_entries(*old(q)),
        r matches Some(i) ==> {
            &&& queue_entries(*old(q)).contains_key(i)
            &&& forall|k: u64| #[trigger]
                queue_entries(*old(q)).contains_key(k) ==> queue_entries(*old(q))[k] <= queue_entries(
                *old(q),
            )[i]
            &&& queue_entries(*final(q)) == queue_entries(*old(q)).remove(i)
        },
{
    q.pop().map(|e| e.0)
}

/// The queue priority that stands for an estimate `f`: lower estimates come first.
pub open spec fn rank(f: u64) -> u64 {
    (u64::MAX - f) as u64
}

/// The open list of a search: at most one node per state, handed out by
/// ascending `f`.
pub struct Frontier {
    queue: KeyQueue,
    nodes: HashMap<u64, Node>,
}

impl View for Frontier {
    type V = Map<u64, Node>;

    /// The queued nodes, each under the key of its state.
    closed spec fn view(&self) -> Map<u64, Node> {
        self.nodes@
    }
}

impl Frontier {
    /// The queue and the nodes agree.
    pub closed spec fn wf(&self) -> bool {
        &&& queue_entries(self.queue).dom() == self.nodes@.dom()
        &&& forall|c: u64| #[trigger]
            self.nodes@.contains_key(c) ==> queue_entries(self.queue)[c] == rank(self.nodes@[c].f)
                && key_of(self.nodes@[c].state@) == c
    }

    /// An empty frontier.
    pub fn new() -> (r: Frontier)
        ensures
            r.wf(),
            r@ == Map::<u64, Node>::empty(),
    {
        let r = Frontier { queue: queue_new(), nodes: HashMap::new() };
        assert(queue_entries(r.queue).dom() =~= r.nodes@.dom());
        r
    }

    /// Whether a node of this state is queued.
    pub fn contains(&self, s: &State) -> (r: bool)
        requires
            self.wf(),
        ensures
            r == self@.contains_key(key_of(s@)),
    {
        let k = s.key();
        self.nodes.contains_key(&k)
    }

    /// The estimate of the queued node of this state, if there is one.
    pub fn current_priority(&self, s: &State) -> (r: Option<u64>)
        requires
            self.wf(),
        ensures
            r == (if self@.contains_key(key_of(s@)) {
                Some(self@[key_of(s@)].f)
            } else {
                None
            }),
    {
        let k = s.key();
        match self.nodes.get(&k) {
            Some(n) => Some(n.f),
            None => None,
        }
    }

    /// Replaces the queued node of the same state by `node` when `node` has a
    /// strictly lower estimate; otherwise leaves the frontier as it is. Tells
    /// whether it replaced.
    pub fn decrease_priority(&mut self, node: Node) -> (r: bool)
        requires
            old(self).wf(),
            old(self)@.contains_key(key_of(node.state@)),
        ensures
            final(self).wf(),
            r == (node.f < old(self)@[key_of(node.state@)].f),
            r ==> final(self)@ == old(self)@.insert(key_of(node.state@), node),
            !r ==> final(self)@ == old(self)@,
    {
        let k = node.state.key();
        let current = match self.nodes.get(&k) {
            Some(n) => n.f,
            None => 0,
        };
        if node.f < current {
            queue_change_priority(&mut self.queue, k, u64::MAX - node.f);
            self.nodes.insert(k, node);
            assert(queue_entries(self.queue).dom() =~= self.nodes@.dom());
            true
        } else {
            false
        }
    }

    /// Queues `node` when no node of its state is queued; otherwise acts as
    /// `decrease_priority`. Tells whether the frontier changed.
    pub fn insert(&mut self, node: Node) -> (r: bool)
        requires
            old(self).wf(),
        ensures
            final(self).wf(),
            r == (!old(self)@.contains_key(key_of(node.state@)) || node.f < old(self)@[key_of(
                node.state@,
            )].f),
            r ==> final(self)@ == old(self)@.insert(key_of(node.state@), node),
            !r ==> final(self)@ == old(self)@,
    {
        let k = node.state.key();
        if self.nodes.contains_key(&k) {
            self.decrease_priority(node)
        } else {
            queue_push(&mut self.queue, k, u64::MAX - node.f);
            self.nodes.insert(k, node);
            assert(queue_entries(self.queue).dom() =~= self.nodes@.dom());
            true
        }
    }

    /// Removes and hands back a node of least estimate; `None` when empty.
    pub fn pop_min(&mut self) -> (r: Option<Node>)
        requires
            old(self).wf(),
        ensures
            final(self).wf(),
            r is None <==> old(self)@ == Map::<u64, Node>::empty(),
            r is None ==> final(self)@ == old(self)@,
            r matches Some(n) ==> {
                &&& old(self)@.contains_key(key_of(n.state@))
                &&& old(self)@[key_of(n.state@)] == n
                &&& final(self)@ == old(self)@.remove(key_of(n.state@))
                &&& forall|c: u64| #[trigger] old(self)@.contains_key(c) ==> n.f <= old(self)@[c].f
            },
    {
        match queue_pop(&mut self.queue) {
            None => {
                assert(self.nodes@ =~= Map::<u64, Node>::empty());
                None
            },
            Some(k) => {
                let removed = self.nodes.remove(&k);
                assert(queue_entries(self.queue).dom() =~= self.nodes@.dom());
                assert forall|c: u64| #[trigger] old(self)@.contains_key(c) implies removed->0.f
                    <= old(self)@[c].f by {
                    assert(queue_entries(old(self).queue).contains_key(c));
                }
                removed
            },
        }
    }
}

} // verus!
