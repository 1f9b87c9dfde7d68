//! A population: the nodes of one generation, and the step that leads to the
//! next.
//!
//! A population holds a fixed, positive number of nodes of one width. A
//! generation mutates every node once, scores the mutated nodes, elects the
//! winner and resets the population to copies of it. Scoring comes from the
//! caller: `score` is handed a node and returns its score.

use crate::node::{can_mutate, clamped, differs_at_most_once, differs_only_at, mutation, zeros, Node};
use crate::selection::{find_winner, winner};
use vstd::prelude::*;

verus! {

/// Every node of `after` is one mutation by `draw` and `perturb` away from
/// the node of `before` at the same position.
pub open spec fn mutated<D: Fn(usize) -> (u32, usize), P: Fn(u32, u32) -> u32>(
    draw: &D,
    perturb: &P,
    before: Seq<Node>,
    after: Seq<Node>,
) -> bool {
    &&& after.len() == before.len()
    &&& forall|i: int|
        0 <= i < before.len() ==> mutation(draw, perturb, before[i]@, #[trigger] after[i]@)
}

/// `score` may be asked about every node of `width` values.
pub open spec fn can_score<S: Fn(&Node) -> u32>(score: &S, width: nat) -> bool {
    forall|node: Node| node@.len() == width ==> call_requires(*score, (&node,))
}

/// The values that are elected among `nodes` when they score `scores` and
/// the floor is `floor`: those of the winning node, or all zero when no
/// score beats the floor.
pub open spec fn chosen(nodes: Seq<Node>, scores: Seq<u32>, floor: u32) -> Seq<u32> {
    match winner(scores, floor) {
        Some(k) => nodes[k]@,
        None => zeros(nodes[0]@.len()),
    }
}

/// Under `score`, the nodes may score `scores` and an all-zero node of
/// their width, `baseline`, may score `floor`; `values` are then chosen.
pub open spec fn elects<S: Fn(&Node) -> u32>(
    score: &S,
    nodes: Seq<Node>,
    scores: Seq<u32>,
    baseline: Node,
    floor: u32,
    values: Seq<u32>,
) -> bool {
    &&& scores.len() == nodes.len()
    &&& forall|i: int|
        0 <= i < nodes.len() ==> call_ensures(*score, (&nodes[i],), #[trigger] scores[i])
    &&& baseline@ == zeros(nodes[0]@.len())
    &&& call_ensures(*score, (&baseline,), floor)
    &&& values == chosen(nodes, scores, floor)
}

/// `values` may be elected among `nodes` under `score`: `score` may return
/// scores for the nodes, and a floor for an all-zero node of their width,
/// under which `values` are chosen.
pub open spec fn elected<S: Fn(&Node) -> u32>(score: &S, nodes: Seq<Node>, values: Seq<u32>) -> bool {
    exists|scores: Seq<u32>, baseline: Node, floor: u32|
        elects(score, nodes, scores, baseline, floor, values)
}

/// Replaces, in the node at `position`, the value at the index that `raw`
/// stands for by `value`.
fn replace_in(nodes: &mut Vec<Node>, position: usize, raw: usize, value: u32)
    requires
        position < old(nodes).len(),
    ensures
        final(nodes).len() == old(nodes).len(),
        forall|j: int|
            0 <= j < old(nodes).len() && j != position ==> final(nodes)[j] == old(nodes)[j],
        final(nodes)[position as int]@ == old(nodes)[position as int]@.update(
            clamped(raw as int, old(nodes)[position as int]@.len() as int),
            value,
        ),
        final(nodes)[position as int]@.len() == old(nodes)[position as int]@.len(),
    no_unwind
{
    nodes[position].mutate_at(raw, value);
}

/// The nodes of one generation.
pub struct Population {
    nodes: Vec<Node>,
}

impl View for Population {
    type V = Seq<Seq<u32>>;

    /// The values of each node, in the population's order.
    open spec fn view(&self) -> Seq<Seq<u32>> {
        Seq::new(self.nodes().len(), |i: int| self.nodes()[i]@)
    }
}

impl Population {
    /// There is at least one node, and all the nodes have one width.
    #[verifier::type_invariant]
    spec fn inv(&self) -> bool {
        &&& self.nodes.len() > 0
        &&& forall|i: int|
            0 <= i < self.nodes.len() ==> (#[trigger] self.nodes[i])@.len() == self.nodes[0]@.len()
    }

    /// The nodes, in the population's order.
    pub closed spec fn nodes(&self) -> Seq<Node> {
        self.nodes@
    }

    /// A population of `size` nodes of `width` values, all zero.
    pub fn new(size: usize, width: usize) -> (population: Population)
        requires
            size > 0,
            width > 0,
        ensures
            population@.len() == size,
            forall|i: int| 0 <= i < size ==> population@[i] == zeros(width as nat),
    {
        let mut nodes: Vec<Node> = Vec::new();
        while nodes.len() < size
            invariant
                width > 0,
                nodes.len() <= size,
                forall|i: int| 0 <= i < nodes.len() ==> nodes[i]@ == zeros(width as nat),
            decreases size - nodes.len(),
        {
            nodes.push(Node::new(width));
        }
        Population { nodes }
    }

    /// The number of nodes, which is never zero.
    pub fn len(&self) -> (n: usize)
        ensures
            n == self@.len(),
            n > 0,
    {
        proof {
            use_type_invariant(self);
        }
        self.nodes.len()
    }

    /// The width that all the nodes share, which is never zero.
    pub fn width(&self) -> (w: usize)
        ensures
            w > 0,
            forall|i: int| 0 <= i < self@.len() ==> self@[i].len() == w,
    {
        proof {
            use_type_invariant(self);
        }
        self.nodes[0].len()
    }

    /// The node at `index`, if there is one.
    pub fn node(&self, index: usize) -> (node: Option<&Node>)
        ensures
            match node {
                Some(node) => index < self@.len() && *node == self.nodes()[index as int],
                None => index >= self@.len(),
            },
    {
        if index < self.nodes.len() {
            Some(&self.nodes[index])
        } else {
            None
        }
    }

    /// Mutates every node once, each by a draw of its own.
    pub fn mutate_all<D: Fn(usize) -> (u32, usize), P: Fn(u32, u32) -> u32>(
        &mut self,
        draw: &D,
        perturb: &P,
    )
        requires
            can_mutate(draw, perturb, old(self)@[0].len()),
        ensures
            final(self)@.len() == old(self)@.len(),
            mutated(draw, perturb, old(self).nodes(), final(self).nodes()),
            forall|i: int|
                0 <= i < old(self)@.len() ==> differs_at_most_once(
                    old(self)@[i],
                    #[trigger] final(self)@[i],
                ),
    {
        proof {
            use_type_invariant(&*self);
        }
        let ghost before = self.nodes@;
        let size = self.nodes.len();
        let mut i: usize = 0;
        while i < size
            invariant
                can_mutate(draw, perturb, before[0]@.len()),
                i <= size,
                size > 0,
                self.nodes.len() == size,
                before.len() == size,
                forall|j: int| 0 <= j < size ==> (#[trigger] before[j])@.len() == before[0]@.len(),
                forall|j: int|
                    0 <= j < i ==> mutation(draw, perturb, before[j]@, #[trigger] self.nodes[j]@),
                forall|j: int|
                    0 <= j < i ==> differs_at_most_once(before[j]@, #[trigger] self.nodes[j]@),
                forall|j: int| i <= j < size ==> self.nodes[j] == before[j],
                forall|j: int|
                    0 <= j < size ==> (#[trigger] self.nodes[j])@.len() == before[j]@.len(),
            decreases size - i,
        {
            let node = &self.nodes[i];
            proof {
                use_type_invariant(node);
            }
            let (raw, value) = node.propose(draw, perturb);
            let ghost target = clamped(raw as int, before[i as int]@.len() as int);
            replace_in(&mut self.nodes, i, raw, value);
            proof {
                assert(differs_only_at(before[i as int]@, self.nodes[i as int]@, target));
            }
            i += 1;
        }
    }

    /// A copy of the node that is elected when the nodes score `scores`, in
    /// the population's order, and the floor is `floor`: the first node with
    /// the greatest score, if that score is strictly above the floor, and an
    /// all-zero node of the population's width otherwise. There is no
    /// election unless there is one score for each node.
    pub fn elect(&self, scores: &[u32], floor: u32) -> (elected: Option<Node>)
        ensures
            match elected {
                Some(node) => {
                    &&& scores@.len() == self@.len()
                    &&& node@ == chosen(self.nodes(), scores@, floor)
                    &&& node@.len() == self@[0].len()
                },
                None => scores@.len() != self@.len(),
            },
    {
        proof {
            use_type_invariant(self);
        }
        if scores.len() != self.nodes.len() {
            return None;
        }
        match find_winner(scores, floor) {
            Some(k) => Some(self.nodes[k].clone()),
            None => Some(Node::new(self.nodes[0].len())),
        }
    }

    /// Scores every node and returns a copy of the winner: the first node
    /// with the greatest score, if that score is strictly above the score
    /// of an all-zero node, and an all-zero node otherwise.
    pub fn get_winner<S: Fn(&Node) -> u32>(&self, score: &S) -> (winner: Node)
        requires
            can_score(score, self@[0].len()),
        ensures
            elected(score, self.nodes(), winner@),
            winner@.len() == self@[0].len(),
    {
        proof {
            use_type_invariant(self);
        }
        let baseline = Node::new(self.nodes[0].len());
        let floor = score(&baseline);
        let mut scores: Vec<u32> = Vec::new();
        while scores.len() < self.nodes.len()
            invariant
                can_score(score, self.nodes[0]@.len()),
                forall|i: int|
                    0 <= i < self.nodes.len() ==> (#[trigger] self.nodes[i])@.len()
                        == self.nodes[0]@.len(),
                scores.len() <= self.nodes.len(),
                forall|i: int|
                    0 <= i < scores.len() ==> call_ensures(*score, (&self.nodes[i],), #[trigger] scores[i]),
            decreases self.nodes.len() - scores.len(),
        {
            let s = score(&self.nodes[scores.len()]);
            scores.push(s);
        }
        // There is one score for each node, so the election takes place.
        let winner = match self.elect(scores.as_slice(), floor) {
            Some(node) => node,
            None => baseline,
        };
        proof {
            assert(elects(score, self.nodes(), scores@, baseline, floor, winner@));
        }
        winner
    }

    /// Replaces every node by an independent copy of `template`.
    pub fn reset_to(&mut self, template: &Node)
        ensures
            final(self)@.len() == old(self)@.len(),
            forall|i: int| 0 <= i < old(self)@.len() ==> final(self)@[i] == template@,
    {
        let size = self.nodes.len();
        let mut nodes: Vec<Node> = Vec::new();
        while nodes.len() < size
            invariant
                nodes.len() <= size,
                forall|i: int| 0 <= i < nodes.len() ==> nodes[i]@ == template@,
            decreases size - nodes.len(),
        {
            nodes.push(template.clone());
        }
        proof {
            use_type_invariant(&*self);
        }
        self.nodes = nodes;
    }

    /// Advances by one generation: mutates every node, elects the winner
    /// among the mutated nodes, and resets the population to copies of it.
    pub fn advance_generation<
        D: Fn(usize) -> (u32, usize),
        P: Fn(u32, u32) -> u32,
        S: Fn(&Node) -> u32,
    >(&mut self, draw: &D, perturb: &P, score: &S)
        requires
            can_mutate(draw, perturb, old(self)@[0].len()),
            can_score(score, old(self)@[0].len()),
        ensures
            final(self)@.len() == old(self)@.len(),
            forall|i: int|
                0 <= i < old(self)@.len() ==> (#[trigger] final(self)@[i]).len() == old(self)@[0].len(),
            exists|offspring: Seq<Node>, best: Seq<u32>|
                {
                    &&& mutated(draw, perturb, old(self).nodes(), offspring)
                    &&& elected(score, offspring, best)
                    &&& forall|i: int| 0 <= i < old(self)@.len() ==> final(self)@[i] == best
                },
    {
        proof {
            use_type_invariant(&*self);
        }
        self.mutate_all(draw, perturb);
        let best = self.get_winner(score);
        self.reset_to(&best);
    }
}

} // verus!
