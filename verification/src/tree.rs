//! The UI tree: a parent relation over entity identifiers.
//!
//! Entities are creation-ordered identifiers, so a parent always carries a
//! smaller identifier than its children. That ordering is the well-formedness
//! invariant of the tree, and it is what makes the walk from a node up to the
//! root terminate.

use vstd::prelude::*;

use crate::events::Entity;

verus! {

/// The parent of `e` according to the edge list `s`: the second component of
/// the first `(child, parent)` pair whose child is `e`, searched from index `i`.
pub open spec fn lookup_from(s: Seq<(Entity, Entity)>, e: Entity, i: int) -> Option<Entity>
    decreases s.len() - i,
{
    if i < 0 || i >= s.len() {
        Option::None
    } else if s[i].0 == e {
        Option::Some(s[i].1)
    } else {
        lookup_from(s, e, i + 1)
    }
}

/// The parent of `e` according to the edge list `s`, if any.
pub open spec fn lookup(s: Seq<(Entity, Entity)>, e: Entity) -> Option<Entity> {
    lookup_from(s, e, 0)
}

/// A well-formed edge list: every parent was created before its child (so it
/// has a smaller identifier), and no child has two parents.
pub open spec fn tree_wf(s: Seq<(Entity, Entity)>) -> bool {
    &&& forall|i: int| 0 <= i < s.len() ==> (#[trigger] s[i]).1 < s[i].0
    &&& forall|i: int, j: int|
        0 <= i < j < s.len() ==> (#[trigger] s[i]).0 != (#[trigger] s[j]).0
}

/// The ancestors of `e` in the edge list `s`, nearest parent first, root last,
/// `e` itself excluded. On an edge list where a parent does not have a smaller
/// identifier than its child the walk stops, so the sequence is well defined
/// even without `tree_wf`.
pub open spec fn ancestors(s: Seq<(Entity, Entity)>, e: Entity) -> Seq<Entity>
    decreases e,
{
    match lookup(s, e) {
        Option::Some(p) => if p < e {
            seq![p] + ancestors(s, p)
        } else {
            seq![]
        },
        Option::None => seq![],
    }
}

/// In a well-formed tree, a parent found by `lookup` has a smaller identifier
/// than the entity it was looked up for.
pub proof fn lemma_lookup_smaller(s: Seq<(Entity, Entity)>, e: Entity, i: int)
    requires
        tree_wf(s),
        lookup_from(s, e, i) is Some,
    ensures
        lookup_from(s, e, i)->0 < e,
    decreases s.len() - i,
{
    if 0 <= i < s.len() && s[i].0 != e {
        lemma_lookup_smaller(s, e, i + 1);
    }
}

/// In a well-formed tree, every ancestor of `e` has a smaller identifier than
/// `e`, and the ancestor sequence is strictly decreasing; hence no entity
/// appears twice, and `e` itself never appears.
pub proof fn lemma_ancestors_decreasing(s: Seq<(Entity, Entity)>, e: Entity)
    requires
        tree_wf(s),
    ensures
        forall|k: int| 0 <= k < ancestors(s, e).len() ==> #[trigger] ancestors(s, e)[k] < e,
        forall|k: int, l: int|
            0 <= k < l < ancestors(s, e).len()
                ==> #[trigger] ancestors(s, e)[l] < #[trigger] ancestors(s, e)[k],
    decreases e,
{
    if lookup(s, e) is Some {
        let p = lookup(s, e)->0;
        lemma_lookup_smaller(s, e, 0);
        lemma_ancestors_decreasing(s, p);
        assert(ancestors(s, e) == seq![p] + ancestors(s, p));
    }
}

/// The UI tree: an owned parent relation over entities. A snapshot of it is
/// taken at the start of every flush so that upward propagation walks a stable
/// topology even while handlers edit the live tree.
pub struct Tree {
    edges: Vec<(Entity, Entity)>,
}

impl Tree {
    /// The edge list of this tree, as `(child, parent)` pairs.
    pub closed spec fn view(&self) -> Seq<(Entity, Entity)> {
        self.edges@
    }

    #[verifier::type_invariant]
    pub(crate) open spec fn wf(self) -> bool {
        tree_wf(self@)
    }

    /// An empty tree: every entity is a root.
    pub fn new() -> (t: Tree)
        ensures
            t@ =~= Seq::<(Entity, Entity)>::empty(),
    {
        Tree { edges: Vec::new() }
    }

    /// Records `parent` as the parent of `child`. Returns `false` and leaves
    /// the tree unchanged when the edge would break the tree's shape: a parent
    /// must be created before its child (smaller identifier), and a child may
    /// have only one parent.
    pub fn insert_edge(&mut self, child: Entity, parent: Entity) -> (ok: bool)
        ensures
            ok == (parent < child && lookup(old(self)@, child) is None),
            ok ==> final(self)@ =~= old(self)@ + seq![(child, parent)],
            !ok ==> final(self)@ == old(self)@,
    {
        proof {
            use_type_invariant(&*self);
        }
        if parent >= child {
            return false;
        }
        if self.parent_of(child).is_some() {
            return false;
        }
        let mut edges: Vec<(Entity, Entity)> = Vec::new();
        core::mem::swap(&mut edges, &mut self.edges);
        edges.push((child, parent));
        proof {
            assert forall|i: int, j: int|
                0 <= i < j < edges@.len() implies (#[trigger] edges@[i]).0 != (
            #[trigger] edges@[j]).0 by {
                if j == edges@.len() - 1 && edges@[i].0 == child {
                    lemma_lookup_found(old(self)@, child, i);
                }
            }
        }
        self.edges = edges;
        true
    }

    /// The parent of `e`, or `None` when `e` is a root or unknown to the tree.
    pub fn parent_of(&self, e: Entity) -> (p: Option<Entity>)
        ensures
            p == lookup(self@, e),
    {
        let n = self.edges.len();
        let mut i: usize = 0;
        while i < n
            invariant
                0 <= i <= n,
                n == self.edges@.len(),
                lookup(self.edges@, e) == lookup_from(self.edges@, e, i as int),
            decreases n - i,
        {
            let (c, p) = self.edges[i];
            if c == e {
                return Some(p);
            }
            i = i + 1;
        }
        None
    }

    /// An owned copy of the tree, for stable traversal during a flush.
    pub fn snapshot(&self) -> (t: Tree)
        ensures
            t@ == self@,
    {
        proof {
            use_type_invariant(&*self);
        }
        let mut edges: Vec<(Entity, Entity)> = Vec::new();
        let n = self.edges.len();
        let mut i: usize = 0;
        while i < n
            invariant
                0 <= i <= n,
                n == self.edges@.len(),
                edges@ =~= self.edges@.take(i as int),
                tree_wf(self.edges@),
            decreases n - i,
        {
            edges.push(self.edges[i]);
            i = i + 1;
        }
        assert(edges@ =~= self.edges@);
        Tree { edges }
    }
}

/// If a pair with child `e` stands at index `i`, then looking `e` up from any
/// index at or before `i` finds a pair.
proof fn lemma_lookup_found(s: Seq<(Entity, Entity)>, e: Entity, i: int)
    requires
        0 <= i < s.len(),
        s[i].0 == e,
    ensures
        forall|j: int| 0 <= j <= i ==> lookup_from(s, e, j) is Some,
    decreases s.len(),
{
    assert forall|j: int| 0 <= j <= i implies lookup_from(s, e, j) is Some by {
        lemma_lookup_found_from(s, e, i, j);
    }
}

/// Looking up from `j` finds a pair when one with child `e` stands at `i >= j`.
proof fn lemma_lookup_found_from(s: Seq<(Entity, Entity)>, e: Entity, i: int, j: int)
    requires
        0 <= j <= i < s.len(),
        s[i].0 == e,
    ensures
        lookup_from(s, e, j) is Some,
    decreases i - j,
{
    if s[j].0 != e {
        lemma_lookup_found_from(s, e, i, j + 1);
    }
}

} // verus!
