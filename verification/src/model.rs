//! Data model shared by the story listing and the comment tree assembler.
//!
//! Records (`StoryItem`, `CommentRecord`) mirror what the remote item source
//! returns for a single ID; `CommentNode` is one node of the resolved comment
//! forest; `StoryDetail` bundles a story with its resolved forest.  Each type
//! with interior `String`/`Vec` data has a mathematical view used by every
//! contract.

use vstd::prelude::*;

verus! {

/// The four ranked listing views offered by the remote source.
#[derive(Clone, Copy, PartialEq, Eq, Structural, Debug)]
pub enum StorySorting {
    Top,
    New,
    Best,
    Show,
}

/// A typed failure returned by the two listing-level entry points.
/// Node-level trouble inside a comment forest never surfaces here; it is
/// absorbed into the forest itself (see [`UnresolvedReason`]).
#[derive(Clone, Copy, PartialEq, Eq, Structural, Debug)]
pub enum FetchError {
    /// The transport failed before a ranked-ID list could be obtained.
    SourceUnavailable,
    /// A well-formed request named an ID the source does not resolve.
    NotFound,
    /// At least one of the ranked IDs selected for a listing failed to
    /// resolve to a story; the listing fails as a whole rather than
    /// silently dropping items.
    PartialResolutionFailure,
}

/// Why a single comment position could not be resolved.
#[derive(Clone, Copy, PartialEq, Eq, Structural, Debug)]
pub enum UnresolvedReason {
    /// The fetch for this ID failed in transport.
    FetchFailed,
    /// The ID already occurs on the chain of its own ancestors; recursing
    /// would loop, so the position is cut off defensively.
    CycleDetected,
}

/// A story record as returned by the remote source: a feed item with a
/// title, an optional external URL, and the IDs of its top-level comments.
/// `url == None` marks a text/self post and is distinct from an empty URL.
#[derive(PartialEq, Eq, Debug)]
pub struct StoryItem {
    pub id: u64,
    pub title: String,
    pub url: Option<String>,
    pub by: String,
    pub score: i64,
    pub time: i64,
    pub kids: Vec<u64>,
}

/// Mathematical image of a [`StoryItem`].
pub struct StoryItemView {
    pub id: u64,
    pub title: Seq<char>,
    pub url: Option<Seq<char>>,
    pub by: Seq<char>,
    pub score: i64,
    pub time: i64,
    pub kids: Seq<u64>,
}

impl View for StoryItem {
    type V = StoryItemView;

    open spec fn view(&self) -> StoryItemView {
        StoryItemView {
            id: self.id,
            title: self.title@,
            url: match self.url {
                Some(u) => Some(u@),
                None => None,
            },
            by: self.by@,
            score: self.score,
            time: self.time,
            kids: self.kids@,
        }
    }
}

impl Clone for StoryItem {
    /// Field-for-field copy; the views coincide.
    fn clone(&self) -> (r: Self)
        ensures
            r@ == self@,
    {
        let r = StoryItem {
            id: self.id,
            title: self.title.clone(),
            url: match &self.url {
                Some(u) => Some(u.clone()),
                None => None,
            },
            by: self.by.clone(),
            score: self.score,
            time: self.time,
            kids: self.kids.clone(),
        };
        proof {
            assert(r.kids@ =~= self.kids@);
        }
        r
    }
}

/// View equality on optional stories: both absent, or both present with the
/// same mathematical image.
pub open spec fn story_opt_eq(a: Option<StoryItem>, b: Option<StoryItem>) -> bool {
    match (a, b) {
        (Some(x), Some(y)) => x@ == y@,
        (None, None) => true,
        _ => false,
    }
}

/// A comment record as returned by the remote source: flat, with the IDs of
/// its replies in display order.  `deleted` marks content removed upstream
/// whose position must still be kept.
#[derive(PartialEq, Eq, Debug)]
pub struct CommentRecord {
    pub id: u64,
    pub by: String,
    pub text: String,
    pub time: i64,
    pub kids: Vec<u64>,
    pub deleted: bool,
}

/// Mathematical image of a [`CommentRecord`].
pub struct CommentRecordView {
    pub id: u64,
    pub by: Seq<char>,
    pub text: Seq<char>,
    pub time: i64,
    pub kids: Seq<u64>,
    pub deleted: bool,
}

impl View for CommentRecord {
    type V = CommentRecordView;

    open spec fn view(&self) -> CommentRecordView {
        CommentRecordView {
            id: self.id,
            by: self.by@,
            text: self.text@,
            time: self.time,
            kids: self.kids@,
            deleted: self.deleted,
        }
    }
}

impl Clone for CommentRecord {
    /// Field-for-field copy; the views coincide.
    fn clone(&self) -> (r: Self)
        ensures
            r@ == self@,
    {
        let r = CommentRecord {
            id: self.id,
            by: self.by.clone(),
            text: self.text.clone(),
            time: self.time,
            kids: self.kids.clone(),
            deleted: self.deleted,
        };
        proof {
            assert(r.kids@ =~= self.kids@);
        }
        r
    }
}

/// What one item ID denotes at the remote source.
#[derive(PartialEq, Eq, Debug)]
pub enum ItemRecord {
    Story(StoryItem),
    Comment(CommentRecord),
}

/// One node of a resolved comment forest.  Every variant keeps the ID whose
/// position in the sibling sequence it occupies, so sibling count and order
/// survive deletion, failure and truncation.
#[derive(PartialEq, Eq, Debug)]
pub enum CommentNode {
    /// A live comment with its replies resolved beneath it, in the order the
    /// source declared them.
    Comment { id: u64, by: String, text: String, time: i64, sub_comments: Vec<CommentNode> },
    /// The record is gone upstream (deleted, flagged, missing or empty); the
    /// position is kept as a tombstone.
    Tombstone { id: u64 },
    /// This one subtree could not be resolved; siblings and ancestors are
    /// unaffected.
    Unresolved { id: u64, reason: UnresolvedReason },
    /// The recursion ceiling was reached: further replies may exist but were
    /// not fetched.  Distinct from a live comment with no replies.
    DepthLimitReached { id: u64 },
}

/// Mathematical image of a [`CommentNode`].
pub enum CommentNodeView {
    Comment { id: u64, by: Seq<char>, text: Seq<char>, time: i64, sub_comments: Seq<CommentNodeView> },
    Tombstone { id: u64 },
    Unresolved { id: u64, reason: UnresolvedReason },
    DepthLimitReached { id: u64 },
}

impl CommentNodeView {
    /// The ID whose sibling position this node occupies.
    pub open spec fn id(self) -> u64 {
        match self {
            CommentNodeView::Comment { id, .. } => id,
            CommentNodeView::Tombstone { id } => id,
            CommentNodeView::Unresolved { id, .. } => id,
            CommentNodeView::DepthLimitReached { id } => id,
        }
    }
}

/// View of one resolved node, children included.
pub open spec fn node_view(n: CommentNode) -> CommentNodeView
    decreases n,
{
    match n {
        CommentNode::Comment { id, by, text, time, sub_comments } => CommentNodeView::Comment {
            id,
            by: by@,
            text: text@,
            time,
            sub_comments: forest_view(sub_comments@),
        },
        CommentNode::Tombstone { id } => CommentNodeView::Tombstone { id },
        CommentNode::Unresolved { id, reason } => CommentNodeView::Unresolved { id, reason },
        CommentNode::DepthLimitReached { id } => CommentNodeView::DepthLimitReached { id },
    }
}

/// View of a sequence of siblings, order kept.
pub open spec fn forest_view(s: Seq<CommentNode>) -> Seq<CommentNodeView>
    decreases s,
{
    if s.len() == 0 {
        Seq::empty()
    } else {
        seq![node_view(s[0])] + forest_view(s.drop_first())
    }
}

impl View for CommentNode {
    type V = CommentNodeView;

    open spec fn view(&self) -> CommentNodeView {
        node_view(*self)
    }
}

/// `forest_view` taken pointwise: position `i` of the view is the view of
/// position `i`.
pub proof fn lemma_forest_view_index(s: Seq<CommentNode>)
    ensures
        forest_view(s).len() == s.len(),
        forall|i: int| 0 <= i < s.len() ==> #[trigger] forest_view(s)[i] == node_view(s[i]),
    decreases s,
{
    if s.len() > 0 {
        lemma_forest_view_index(s.drop_first());
    }
}

/// A fully resolved story view: the story itself and its comment forest.
#[derive(PartialEq, Eq, Debug)]
pub struct StoryDetail {
    pub item: StoryItem,
    pub comments: Vec<CommentNode>,
}

} // verus!
