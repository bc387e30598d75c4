//! Best-first exploration of the transition graph.
//!
//! A frontier of (state, depth) nodes is kept ordered by the priority key
//! (enemy health, depth), lowest first. Each step dequeues a minimum-key
//! node, lets it improve the best tracker, and enqueues every legal
//! successor. The best tracker never regresses: once a lower health has
//! been seen, the reported best keeps it.

use vstd::prelude::*;

use crate::actions::Action;
use crate::actions::action_legal;
use crate::actions::apply_action;
use crate::actions::apply_model;
use crate::actions::all_actions;
use crate::actions::lemma_legal_action_applies;
use crate::state::GameState;
use crate::state::initial_model;
use crate::state::initial_state;

verus! {

/// A frontier entry: a state and the number of actions that led to it.
#[derive(Clone, Copy)]
pub struct SearchNode {
    pub state: GameState,
    pub depth: u64,
}

/// The priority order: lower enemy health first, ties broken by lower
/// depth.
pub open spec fn key_le(a: SearchNode, b: SearchNode) -> bool {
    ||| a.state@.enemy_hp < b.state@.enemy_hp
    ||| (a.state@.enemy_hp == b.state@.enemy_hp && a.depth <= b.depth)
}

/// The strict priority order.
pub open spec fn key_lt(a: SearchNode, b: SearchNode) -> bool {
    ||| a.state@.enemy_hp < b.state@.enemy_hp
    ||| (a.state@.enemy_hp == b.state@.enemy_hp && a.depth < b.depth)
}

/// Whether `a` comes strictly before `b` in the priority order.
pub fn node_before(a: &SearchNode, b: &SearchNode) -> (r: bool)
    ensures
        r == key_lt(*a, *b),
{
    a.state.enemy_hp < b.state.enemy_hp || (a.state.enemy_hp == b.state.enemy_hp && a.depth
        < b.depth)
}

/// The depth of a node one action further on; it saturates at the machine
/// ceiling.
pub open spec fn next_depth(d: u64) -> u64 {
    if d < u64::MAX {
        (d + 1) as u64
    } else {
        d
    }
}

/// A node reachable from `nd` by one legal action.
pub open spec fn successor_of(nd: SearchNode, ch: SearchNode) -> bool {
    &&& ch.depth == next_depth(nd.depth)
    &&& exists|a: Action| #[trigger] action_legal(nd.state@, a) && ch.state@ == apply_model(
        nd.state@,
        a,
    )
}

/// How one step rewrites the frontier: the node at `i` leaves, the rest
/// stay in order, and after them stands one successor of the popped node
/// for each of its legal actions — at least one for every legal action.
pub open spec fn expansion(pre: Seq<SearchNode>, i: int, post: Seq<SearchNode>) -> bool {
    let nd = pre[i];
    let keep = pre.remove(i);
    &&& keep.is_prefix_of(post)
    &&& forall|m: int| keep.len() <= m < post.len() ==> successor_of(nd, #[trigger] post[m])
    &&& forall|a: Action| #[trigger] action_legal(nd.state@, a) ==> exists|m: int|
        keep.len() <= m < post.len() && post[m].state@ == apply_model(nd.state@, a)
}

proof fn lemma_push_keeps_contains_node(s: Seq<SearchNode>, x: SearchNode, y: SearchNode)
    requires
        s.contains(y),
    ensures
        s.push(x).contains(y),
{
    let i = choose|i: int| 0 <= i < s.len() && s[i] == y;
    assert(s.push(x)[i] == y);
}

/// How one step relates an engine to its successor: the node at `i` was a
/// minimum-key node of the old frontier; it was appended to the dequeue
/// log; it replaced the best tracker exactly when strictly better; and the
/// frontier was rewritten by its expansion.
pub open spec fn stepped_at(pre: Engine, post: Engine, i: int) -> bool {
    &&& 0 <= i < pre.spec_frontier().len()
    &&& forall|j: int|
        0 <= j < pre.spec_frontier().len() ==> key_le(
            pre.spec_frontier()[i],
            #[trigger] pre.spec_frontier()[j],
        )
    &&& post.spec_log() == pre.spec_log().push(pre.spec_frontier()[i])
    &&& post.best_node() == (if key_lt(pre.spec_frontier()[i], pre.best_node()) {
        pre.spec_frontier()[i]
    } else {
        pre.best_node()
    })
    &&& expansion(pre.spec_frontier(), i, post.spec_frontier())
}

/// The engine `post` arose from `pre` by exactly `n` steps, each a
/// `stepped_at` link.
pub open spec fn reached_in(pre: Engine, post: Engine, n: nat) -> bool
    decreases n,
{
    if n == 0 {
        post == pre
    } else {
        exists|mid: Engine, i: int| reached_in(pre, mid, (n - 1) as nat) && stepped_at(mid, post, i)
    }
}

/// The engine `post` arose from `pre` by some chain of steps.
pub open spec fn reached_by_steps(pre: Engine, post: Engine) -> bool {
    exists|n: nat| reached_in(pre, post, n)
}

/// An engine reaches itself by zero steps.
pub proof fn lemma_reached_refl(e: Engine)
    ensures
        reached_by_steps(e, e),
{
    assert(reached_in(e, e, 0));
}

/// A chain of steps followed by one more step is a chain of steps.
pub proof fn lemma_reached_extend(pre: Engine, mid: Engine, post: Engine, i: int)
    requires
        reached_by_steps(pre, mid),
        stepped_at(mid, post, i),
    ensures
        reached_by_steps(pre, post),
{
    let n = choose|n: nat| reached_in(pre, mid, n);
    assert(reached_in(pre, mid, ((n + 1) - 1) as nat));
    assert(reached_in(pre, post, n + 1));
}

/// The best-first explorer: a frontier of open nodes and the best node
/// dequeued so far.
pub struct Engine {
    frontier: Vec<SearchNode>,
    best: SearchNode,
    seed: Ghost<SearchNode>,
    log: Ghost<Seq<SearchNode>>,
}

impl Engine {
    /// The frontier as the contracts see it.
    pub closed spec fn spec_frontier(&self) -> Seq<SearchNode> {
        self.frontier@
    }

    /// The best tracker as the contracts see it.
    pub closed spec fn best_node(&self) -> SearchNode {
        self.best
    }

    /// The node the search was seeded with.
    pub closed spec fn spec_seed(&self) -> SearchNode {
        self.seed@
    }

    /// Every node dequeued so far, in order.
    pub closed spec fn spec_log(&self) -> Seq<SearchNode> {
        self.log@
    }

    /// The engine's invariant: the frontier never empties, and the best
    /// tracker is the seed or a dequeued node and no worse than the seed
    /// and every dequeued node.
    pub closed spec fn wf(&self) -> bool {
        &&& self.frontier@.len() >= 1
        &&& (self.best == self.seed@ || self.log@.contains(self.best))
        &&& key_le(self.best, self.seed@)
        &&& forall|i: int| 0 <= i < self.log@.len() ==> key_le(self.best, #[trigger] self.log@[i])
    }

    /// Seeds a search: the frontier holds the given state at depth zero,
    /// which is also the initial best tracker.
    pub fn new(init: GameState) -> (r: Engine)
        ensures
            r.wf(),
            r.spec_frontier() == seq![SearchNode { state: init, depth: 0 }],
            r.best_node() == (SearchNode { state: init, depth: 0 }),
            r.spec_seed() == (SearchNode { state: init, depth: 0 }),
            r.spec_log() == Seq::<SearchNode>::empty(),
    {
        let node = SearchNode { state: init, depth: 0 };
        let mut frontier: Vec<SearchNode> = Vec::new();
        frontier.push(node);
        let r = Engine { frontier, best: node, seed: Ghost(node), log: Ghost(Seq::empty()) };
        proof {
            assert(r.frontier@ =~= seq![node]);
        }
        r
    }

    /// How many nodes the frontier holds.
    pub fn frontier_len(&self) -> (r: usize)
        ensures
            r == self.spec_frontier().len(),
    {
        self.frontier.len()
    }

    /// The best node dequeued so far.
    pub fn best(&self) -> (r: SearchNode)
        ensures
            r == self.best_node(),
    {
        self.best
    }

    /// One expansion: dequeues a minimum-key node, lets it improve the best
    /// tracker, and enqueues one successor for every legal action of it.
    pub fn step(&mut self)
        requires
            old(self).wf(),
        ensures
            final(self).wf(),
            key_le(final(self).best_node(), old(self).best_node()),
            final(self).spec_seed() == old(self).spec_seed(),
            exists|i: int| stepped_at(*old(self), *final(self), i),
    {
        let (nd, gi) = pop_min(&mut self.frontier);
        let ghost i = gi@;
        if node_before(&nd, &self.best) {
            self.best = nd;
        }
        proof {
            self.log@ = self.log@.push(nd);
        }
        expand(&mut self.frontier, nd);
        proof {
            assert(expansion(old(self).spec_frontier(), i, self.frontier@));
            assert(stepped_at(*old(self), *self, i));
            // The invariant is restored: the new log entry is the popped
            // node, and the best tracker is still no worse than anything
            // dequeued.
            assert(self.log@ == old(self).spec_log().push(nd));
            assert(self.log@[self.log@.len() - 1] == nd);
            if !key_lt(nd, old(self).best_node()) && old(self).spec_log().contains(self.best) {
                lemma_push_keeps_contains_node(old(self).spec_log(), nd, self.best);
            }
            assert forall|t: int| 0 <= t < self.log@.len() implies key_le(
                self.best,
                #[trigger] self.log@[t],
            ) by {
                if t < self.log@.len() - 1 {
                    assert(self.log@[t] == old(self).spec_log()[t]);
                    assert(key_le(old(self).best_node(), self.log@[t]));
                }
            }
        }
    }

    /// Expands nodes until the frontier would pass the ceiling or the
    /// iteration cap runs out. The best tracker never regresses across the
    /// run.
    pub fn run(&mut self, ceiling: usize, max_iters: u64)
        requires
            old(self).wf(),
        ensures
            final(self).wf(),
            key_le(final(self).best_node(), old(self).best_node()),
            final(self).spec_seed() == old(self).spec_seed(),
            reached_by_steps(*old(self), *final(self)),
            final(self).spec_frontier().len() > ceiling || final(self).spec_log().len() == old(
                self,
            ).spec_log().len() + max_iters,
    {
        proof {
            lemma_reached_refl(*old(self));
        }
        let mut i: u64 = 0;
        while i < max_iters
            invariant
                self.wf(),
                i <= max_iters,
                key_le(self.best_node(), old(self).best_node()),
                self.spec_seed() == old(self).spec_seed(),
                reached_by_steps(*old(self), *self),
                self.spec_log().len() == old(self).spec_log().len() + i,
            decreases max_iters - i,
        {
            if self.frontier.len() > ceiling {
                return;
            }
            let ghost pre = *self;
            self.step();
            proof {
                let w = choose|w: int| stepped_at(pre, *self, w);
                assert(self.spec_log().len() == pre.spec_log().len() + 1);
                lemma_reached_extend(*old(self), pre, *self, w);
            }
            i = i + 1;
        }
    }
}


/// Removes and returns a minimum-key node, together with the index it
/// stood at.
fn pop_min(frontier: &mut Vec<SearchNode>) -> (r: (SearchNode, Ghost<int>))
    requires
        old(frontier)@.len() >= 1,
    ensures
        0 <= r.1@ < old(frontier)@.len(),
        r.0 == old(frontier)@[r.1@],
        final(frontier)@ == old(frontier)@.remove(r.1@),
        forall|j: int| 0 <= j < old(frontier)@.len() ==> key_le(r.0, #[trigger] old(frontier)@[j]),
{
    let mut mi: usize = 0;
    let mut j: usize = 1;
    while j < frontier.len()
        invariant
            frontier@ == old(frontier)@,
            frontier@.len() >= 1,
            mi < j <= frontier@.len(),
            forall|t: int|
                0 <= t < j ==> key_le(frontier@[mi as int], #[trigger] frontier@[t]),
        decreases frontier@.len() - j,
    {
        if node_before(&frontier[j], &frontier[mi]) {
            mi = j;
        }
        j = j + 1;
    }
    let nd = frontier.remove(mi);
    (nd, Ghost(mi as int))
}

/// Pushes one successor of `nd` for every legal action of its state; the
/// frontier grows by at least one node, since passing is always legal.
fn expand(frontier: &mut Vec<SearchNode>, nd: SearchNode)
    ensures
        old(frontier)@.is_prefix_of(final(frontier)@),
        forall|m: int|
            old(frontier)@.len() <= m < final(frontier)@.len() ==> successor_of(
                nd,
                #[trigger] final(frontier)@[m],
            ),
        forall|a: Action| #[trigger] action_legal(nd.state@, a) ==> exists|m: int|
            old(frontier)@.len() <= m < final(frontier)@.len() && final(frontier)@[m].state@
                == apply_model(nd.state@, a),
        final(frontier)@.len() > old(frontier)@.len(),
{
    let ghost keep = frontier@;
    let acts = all_actions(&nd.state);
    let depth = if nd.depth < u64::MAX {
        nd.depth + 1
    } else {
        nd.depth
    };
    let mut ai: usize = 0;
    while ai < acts.len()
        invariant
            ai <= acts@.len(),
            keep == old(frontier)@,
            depth == next_depth(nd.depth),
            forall|x: int| 0 <= x < acts@.len() ==> action_legal(nd.state@, #[trigger] acts@[x]),
            forall|a: Action| #[trigger] action_legal(nd.state@, a) ==> acts@.contains(a),
            keep.is_prefix_of(frontier@),
            keep.len() <= frontier@.len(),
            forall|m: int| keep.len() <= m < frontier@.len() ==> successor_of(
                nd,
                #[trigger] frontier@[m],
            ),
            forall|t: int|
                0 <= t < ai ==> exists|m: int|
                    keep.len() <= m < frontier@.len() && frontier@[m].state@ == apply_model(
                        nd.state@,
                        #[trigger] acts@[t],
                    ),
        decreases acts@.len() - ai,
    {
        let act = acts[ai];
        proof {
            lemma_legal_action_applies(nd.state@, act);
        }
        let ghost before = frontier@;
        match apply_action(&nd.state, act) {
            Ok(child) => {
                frontier.push(SearchNode { state: child, depth });
            },
            Err(_) => {
                proof {
                    assert(false);
                }
            },
        }
        proof {
            assert(keep.is_prefix_of(frontier@)) by {
                assert(frontier@.subrange(0, keep.len() as int) =~= keep);
            }
            assert forall|t: int| 0 <= t < ai + 1 implies exists|m: int|
                keep.len() <= m < frontier@.len() && frontier@[m].state@ == apply_model(
                    nd.state@,
                    #[trigger] acts@[t],
                ) by {
                if t < ai {
                    let m = choose|m: int|
                        keep.len() <= m < before.len() && before[m].state@ == apply_model(
                            nd.state@,
                            acts@[t],
                        );
                    assert(frontier@[m].state@ == apply_model(nd.state@, acts@[t]));
                } else {
                    let m = frontier@.len() - 1;
                    assert(frontier@[m].state@ == apply_model(nd.state@, acts@[t]));
                }
            }
        }
        ai = ai + 1;
    }
    proof {
        assert(action_legal(nd.state@, Action::Pass));
        assert(acts@.contains(Action::Pass));
        let tp = choose|tp: int| 0 <= tp < acts@.len() && acts@[tp] == Action::Pass;
        assert(exists|m: int|
            keep.len() <= m < frontier@.len() && frontier@[m].state@ == apply_model(
                nd.state@,
                acts@[tp],
            ));
        assert forall|a: Action| #[trigger] action_legal(nd.state@, a) implies exists|m: int|
            keep.len() <= m < frontier@.len() && frontier@[m].state@ == apply_model(
                nd.state@,
                a,
            ) by {
            assert(acts@.contains(a));
            let t = choose|t: int| 0 <= t < acts@.len() && acts@[t] == a;
            assert(exists|m: int|
                keep.len() <= m < frontier@.len() && frontier@[m].state@ == apply_model(
                    nd.state@,
                    acts@[t],
                ));
        }
    }
}

/// A just-seeded engine: the frontier holds exactly the seed, which is also
/// the best tracker, and nothing was dequeued yet.
pub open spec fn fresh_engine(e: Engine) -> bool {
    &&& e.spec_frontier() == seq![e.spec_seed()]
    &&& e.best_node() == e.spec_seed()
    &&& e.spec_log() == Seq::<SearchNode>::empty()
}

/// The result of a finished best-first search from the starting position:
/// some engine, seeded with the initial state at depth zero, was stepped
/// until its frontier passed the ceiling or the iteration cap ran out, and
/// the result is its best tracker.
pub open spec fn searched_best(r: SearchNode, ceiling: usize, max_iters: u64) -> bool {
    exists|e0: Engine, e: Engine|
        {
            &&& fresh_engine(e0)
            &&& e0.spec_seed().state@ == initial_model()
            &&& e0.spec_seed().depth == 0
            &&& #[trigger] reached_by_steps(e0, e)
            &&& (e.spec_frontier().len() > ceiling || e.spec_log().len() == max_iters)
            &&& r == e.best_node()
        }
}

/// Explores best-first from the starting position under a frontier ceiling
/// and an iteration cap, and returns the best tracker of the run: the best
/// node dequeued, whose enemy health never exceeds the initial 105.
pub fn best_first(ceiling: usize, max_iters: u64) -> (r: SearchNode)
    ensures
        r.state@.enemy_hp <= 105,
        searched_best(r, ceiling, max_iters),
{
    let init = initial_state();
    let mut eng = Engine::new(init);
    let ghost e0 = eng;
    eng.run(ceiling, max_iters);
    let r = eng.best();
    proof {
        assert(fresh_engine(e0));
        assert(searched_best(r, ceiling, max_iters));
    }
    r
}

} // verus!
