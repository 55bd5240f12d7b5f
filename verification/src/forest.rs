//! The comment tree assembler.
//!
//! `resolve_comment_forest` turns a story's flat, ID-referencing comment
//! records into an ordered tree, depth-first, preserving the declared child
//! order at every level.  Three guards shape each node:
//! * a hard recursion ceiling (`max_depth`): a position at the ceiling
//!   becomes a [`CommentNode::DepthLimitReached`] marker with no children,
//!   so the number of fetches is bounded however deep the thread runs;
//! * a cycle guard: an ID already on its own ancestor chain becomes an
//!   [`CommentNode::Unresolved`] leaf instead of recursing forever, should
//!   the source ever hand back a cyclic ID graph;
//! * failure absorption: a transport failure for one ID becomes an
//!   [`CommentNode::Unresolved`] leaf in that one position — siblings and
//!   ancestors are resolved as if nothing happened.
//!
//! A record that is deleted upstream, missing, empty of text, or not a
//! comment at all keeps its position as a [`CommentNode::Tombstone`].
//!
//! The mathematical model is `spec_node` / `spec_forest`; every resolver
//! returns exactly the model's value, so each node of the result depends
//! only on the snapshot, its own ID, its remaining budget and its ancestor
//! chain — never on its siblings or on any fetch order.  That independence
//! is what licenses resolving sibling subtrees concurrently, under any
//! breadth cap, without changing the tree: this implementation walks them
//! in declared order, and any scheduler joining to the same order returns
//! the same forest.

use vstd::prelude::*;

use crate::model::{
    CommentNode, CommentNodeView, ItemRecord, UnresolvedReason, forest_view, lemma_forest_view_index,
    node_view,
};
use crate::source::RemoteSource;

verus! {

/// The node the assembler owes position `id` when `budget` levels may still
/// be fetched and `visited` is the chain of ancestor IDs.
pub open spec fn spec_node(
    src: RemoteSource,
    id: u64,
    budget: nat,
    visited: Seq<u64>,
) -> CommentNodeView
    decreases budget, 0nat, 0nat,
{
    if budget == 0 {
        CommentNodeView::DepthLimitReached { id }
    } else if visited.contains(id) {
        CommentNodeView::Unresolved { id, reason: UnresolvedReason::CycleDetected }
    } else if src.spec_fails(id) {
        CommentNodeView::Unresolved { id, reason: UnresolvedReason::FetchFailed }
    } else {
        match src.spec_record(id) {
            Some(ItemRecord::Comment(rec)) => {
                if rec.deleted || rec.text@.len() == 0 {
                    CommentNodeView::Tombstone { id }
                } else {
                    CommentNodeView::Comment {
                        id,
                        by: rec.by@,
                        text: rec.text@,
                        time: rec.time,
                        sub_comments: spec_forest(
                            src,
                            rec.kids@,
                            (budget - 1) as nat,
                            visited.push(id),
                        ),
                    }
                }
            },
            _ => CommentNodeView::Tombstone { id },
        }
    }
}

/// The forest the assembler owes a sibling ID sequence: one node per ID, in
/// declared order, each resolved independently of the others.
pub open spec fn spec_forest(
    src: RemoteSource,
    ids: Seq<u64>,
    budget: nat,
    visited: Seq<u64>,
) -> Seq<CommentNodeView>
    decreases budget, 1nat, ids.len(),
{
    if ids.len() == 0 {
        Seq::empty()
    } else {
        seq![spec_node(src, ids[0], budget, visited)] + spec_forest(
            src,
            ids.drop_first(),
            budget,
            visited,
        )
    }
}

/// `spec_forest` taken pointwise: one node per ID, and position `i` is the
/// resolution of `ids[i]` alone.
pub proof fn lemma_spec_forest_index(src: RemoteSource, ids: Seq<u64>, budget: nat, visited: Seq<u64>)
    ensures
        spec_forest(src, ids, budget, visited).len() == ids.len(),
        forall|i: int| 0 <= i < ids.len() ==> #[trigger] spec_forest(src, ids, budget, visited)[i]
            == spec_node(src, ids[i], budget, visited),
    decreases ids.len(),
{
    if ids.len() > 0 {
        lemma_spec_forest_index(src, ids.drop_first(), budget, visited);
    }
}

/// Resolution keeps every node's ID: the node owed to position `id` always
/// occupies position `id`, whichever variant it takes.
pub proof fn lemma_node_keeps_id(src: RemoteSource, id: u64, budget: nat, visited: Seq<u64>)
    ensures
        spec_node(src, id, budget, visited).id() == id,
{
}

/// Declared child order is preserved exactly: a resolved sibling level has
/// one node per listed ID, the IDs of the nodes — as a sequence — equal the
/// listed IDs, and each position is resolved independently of its siblings.
/// Since every live comment's children are themselves a resolved sibling
/// level (see [`lemma_live_comment_resolves`]), this holds at every depth.
pub proof fn lemma_forest_preserves_order(
    src: RemoteSource,
    ids: Seq<u64>,
    budget: nat,
    visited: Seq<u64>,
)
    ensures
        spec_forest(src, ids, budget, visited).len() == ids.len(),
        spec_forest(src, ids, budget, visited).map(|i: int, n: CommentNodeView| n.id()) =~= ids,
        forall|i: int| 0 <= i < ids.len() ==> #[trigger] spec_forest(src, ids, budget, visited)[i]
            == spec_node(src, ids[i], budget, visited),
{
    lemma_spec_forest_index(src, ids, budget, visited);
    let mapped = spec_forest(src, ids, budget, visited).map(|i: int, n: CommentNodeView| n.id());
    assert forall|i: int| 0 <= i < ids.len() implies #[trigger] mapped[i] == ids[i] by {
        lemma_node_keeps_id(src, ids[i], budget, visited);
    }
}

/// A live comment resolves to a [`CommentNodeView::Comment`] node carrying
/// its record's content, and its children are exactly the resolution of its
/// declared kid list — one level deeper, with itself on the ancestor chain.
/// The variant never depends on what becomes of the children, so failures
/// below a node leave the node (and every ancestor) intact.
pub proof fn lemma_live_comment_resolves(
    src: RemoteSource,
    id: u64,
    budget: nat,
    visited: Seq<u64>,
)
    requires
        budget > 0,
        !visited.contains(id),
        !src.spec_fails(id),
        src.spec_record(id) matches Some(ItemRecord::Comment(rec)) && !rec.deleted
            && rec.text@.len() > 0,
    ensures
        spec_node(src, id, budget, visited) matches CommentNodeView::Comment {
            id: nid,
            by,
            text,
            time,
            sub_comments,
        } && {
            let rec = src.spec_record(id)->Some_0->Comment_0;
            &&& nid == id
            &&& by == rec.by@
            &&& text == rec.text@
            &&& time == rec.time
            &&& sub_comments == spec_forest(src, rec.kids@, (budget - 1) as nat, visited.push(id))
        },
{
}

/// A record marked deleted upstream — or missing, empty of text, or not a
/// comment record at all — yields a tombstone in its original position.
/// Together with [`lemma_forest_preserves_order`], sibling count and order
/// are unaffected.
pub proof fn lemma_deleted_is_tombstoned(
    src: RemoteSource,
    id: u64,
    budget: nat,
    visited: Seq<u64>,
)
    requires
        budget > 0,
        !visited.contains(id),
        !src.spec_fails(id),
        match src.spec_record(id) {
            Some(ItemRecord::Comment(rec)) => rec.deleted || rec.text@.len() == 0,
            Some(ItemRecord::Story(_)) => true,
            None => true,
        },
    ensures
        spec_node(src, id, budget, visited) == (CommentNodeView::Tombstone { id }),
{
}

/// An ID that already stands on its own ancestor chain is cut off as an
/// `Unresolved` leaf instead of being fetched again: one resolution pass
/// never descends into the same ID twice along one path, whatever the
/// ceiling, so a cyclic ID graph cannot make the assembler loop.
pub proof fn lemma_cycle_guard(src: RemoteSource, id: u64, budget: nat, visited: Seq<u64>)
    requires
        budget > 0,
        visited.contains(id),
    ensures
        spec_node(src, id, budget, visited) == (CommentNodeView::Unresolved {
            id,
            reason: UnresolvedReason::CycleDetected,
        }),
{
}

/// Recursion beyond the ceiling yields a `DepthLimitReached` marker with no
/// children, whatever the source holds for the ID — nothing below it is
/// fetched, so the fetch count stays bounded on arbitrarily deep threads.
pub proof fn lemma_depth_ceiling(src: RemoteSource, id: u64, visited: Seq<u64>)
    ensures
        spec_node(src, id, 0, visited) == (CommentNodeView::DepthLimitReached { id }),
{
}

/// An ID whose own fetch fails in transport is absorbed as one `Unresolved`
/// leaf: every sibling position is still present, in order, and resolves
/// exactly as it would have with no failure among its siblings.
pub proof fn lemma_failure_isolated(
    src: RemoteSource,
    ids: Seq<u64>,
    budget: nat,
    visited: Seq<u64>,
    i: int,
)
    requires
        0 <= i < ids.len(),
        budget > 0,
        !visited.contains(ids[i]),
        src.spec_fails(ids[i]),
    ensures
        spec_forest(src, ids, budget, visited).len() == ids.len(),
        spec_forest(src, ids, budget, visited)[i] == (CommentNodeView::Unresolved {
            id: ids[i],
            reason: UnresolvedReason::FetchFailed,
        }),
        forall|j: int| 0 <= j < ids.len() ==> #[trigger] spec_forest(src, ids, budget, visited)[j]
            == spec_node(src, ids[j], budget, visited),
{
    lemma_spec_forest_index(src, ids, budget, visited);
}

/// Bridge to executable results: a resolved forest equal to the model has
/// one node per listed ID, each occupying its listed position.
pub proof fn lemma_resolved_forest_order(
    r: Seq<CommentNode>,
    src: RemoteSource,
    ids: Seq<u64>,
    budget: nat,
    visited: Seq<u64>,
)
    requires
        forest_view(r) == spec_forest(src, ids, budget, visited),
    ensures
        r.len() == ids.len(),
        forall|i: int| 0 <= i < ids.len() ==> node_view(#[trigger] r[i]).id() == ids[i],
{
    lemma_forest_view_index(r);
    lemma_forest_preserves_order(src, ids, budget, visited);
    lemma_spec_forest_index(src, ids, budget, visited);
    assert forall|i: int| 0 <= i < ids.len() implies node_view(#[trigger] r[i]).id() == ids[i] by {
        assert(node_view(r[i]) == forest_view(r)[i]);
        lemma_node_keeps_id(src, ids[i], budget, visited);
    }
}

/// `v@.contains(x)`, decided by a scan.
fn contains_id(v: &Vec<u64>, x: u64) -> (b: bool)
    ensures
        b == v@.contains(x),
{
    let mut i: usize = 0;
    while i < v.len()
        invariant
            0 <= i <= v@.len(),
            forall|j: int| 0 <= j < i ==> v@[j] != x,
        decreases v.len() - i,
    {
        if v[i] == x {
            return true;
        }
        i += 1;
    }
    false
}

impl RemoteSource {
    /// Resolve a story's top-level comment ID list into an ordered forest,
    /// recursing at most `max_depth` levels deep.  The result is exactly
    /// the mathematical model of the snapshot: declared order preserved at
    /// every level, one node per listed ID at every level.
    pub fn resolve_comment_forest(&self, ids: &Vec<u64>, max_depth: u64) -> (r: Vec<CommentNode>)
        ensures
            forest_view(r@) == spec_forest(*self, ids@, max_depth as nat, Seq::empty()),
    {
        let visited: Vec<u64> = Vec::new();
        proof {
            assert(visited@ =~= Seq::<u64>::empty());
        }
        self.resolve_siblings(ids, max_depth, &visited)
    }

    /// Resolve one level of siblings, in declared order, each independently.
    fn resolve_siblings(&self, ids: &Vec<u64>, budget: u64, visited: &Vec<u64>) -> (r: Vec<
        CommentNode,
    >)
        ensures
            forest_view(r@) == spec_forest(*self, ids@, budget as nat, visited@),
        decreases budget, 1int, 0int,
    {
        let mut r: Vec<CommentNode> = Vec::new();
        let mut i: usize = 0;
        while i < ids.len()
            invariant
                0 <= i <= ids@.len(),
                r@.len() == i,
                forall|j: int| 0 <= j < i ==> node_view(#[trigger] r@[j]) == spec_node(
                    *self,
                    ids@[j],
                    budget as nat,
                    visited@,
                ),
            decreases ids.len() - i,
        {
            let node = self.resolve_node(ids[i], budget, visited);
            r.push(node);
            i += 1;
        }
        proof {
            lemma_spec_forest_index(*self, ids@, budget as nat, visited@);
            lemma_forest_view_index(r@);
            assert(forest_view(r@) =~= spec_forest(*self, ids@, budget as nat, visited@));
        }
        r
    }

    /// Resolve the subtree at one comment position.
    fn resolve_node(&self, id: u64, budget: u64, visited: &Vec<u64>) -> (n: CommentNode)
        ensures
            node_view(n) == spec_node(*self, id, budget as nat, visited@),
        decreases budget, 0int, 0int,
    {
        if budget == 0 {
            return CommentNode::DepthLimitReached { id };
        }
        if contains_id(visited, id) {
            return CommentNode::Unresolved { id, reason: UnresolvedReason::CycleDetected };
        }
        if self.fails(id) {
            return CommentNode::Unresolved { id, reason: UnresolvedReason::FetchFailed };
        }
        let rec = match self.lookup(id) {
            Some(ItemRecord::Comment(rec)) => rec,
            _ => {
                return CommentNode::Tombstone { id };
            },
        };
        if rec.deleted || rec.text.as_str().is_empty() {
            return CommentNode::Tombstone { id };
        }
        let mut chain = visited.clone();
        proof {
            assert(chain@ =~= visited@);
        }
        chain.push(id);
        let sub_comments = self.resolve_siblings(&rec.kids, budget - 1, &chain);
        CommentNode::Comment {
            id,
            by: rec.by.clone(),
            text: rec.text.clone(),
            time: rec.time,
            sub_comments,
        }
    }
}

} // verus!
