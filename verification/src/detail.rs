//! The story detail resolver: one story record plus its fully resolved
//! comment forest.

use vstd::prelude::*;

use crate::forest::{lemma_resolved_forest_order, spec_forest};
use crate::model::{FetchError, ItemRecord, StoryDetail, forest_view, node_view};
use crate::source::RemoteSource;

verus! {

/// End to end: a resolved detail's top-level comments line up one-to-one,
/// in order, with the story's declared comment IDs — the shape every
/// success of [`RemoteSource::fetch_story_detail`] guarantees.
pub proof fn lemma_detail_forest_order(d: StoryDetail, src: RemoteSource, max_depth: nat)
    requires
        forest_view(d.comments@) == spec_forest(src, d.item@.kids, max_depth, Seq::empty()),
    ensures
        d.comments@.len() == d.item@.kids.len(),
        forall|i: int| 0 <= i < d.item@.kids.len() ==> node_view(#[trigger] d.comments@[i]).id()
            == d.item@.kids[i],
{
    lemma_resolved_forest_order(d.comments@, src, d.item@.kids, max_depth, Seq::empty());
}

impl RemoteSource {
    /// Fetch the story behind `id` and resolve its comment forest, at most
    /// `max_depth` levels deep.
    ///
    /// Success is owed exactly when the story fetch neither fails in
    /// transport (`SourceUnavailable`) nor misses a story record
    /// (`NotFound`); trouble below the story never fails the detail — it is
    /// absorbed into the forest node by node.
    pub fn fetch_story_detail(&self, id: u64, max_depth: u64) -> (r: Result<
        StoryDetail,
        FetchError,
    >)
        ensures
            match r {
                Ok(d) => {
                    &&& !self.spec_fails(id)
                    &&& self.spec_story_record(id) is Some
                    &&& d.item@ == self.spec_story_record(id)->Some_0@
                    &&& crate::model::forest_view(d.comments@) == spec_forest(
                        *self,
                        self.spec_story_record(id)->Some_0.kids@,
                        max_depth as nat,
                        Seq::empty(),
                    )
                },
                Err(FetchError::SourceUnavailable) => self.spec_fails(id),
                Err(FetchError::NotFound) => !self.spec_fails(id) && self.spec_story_record(
                    id,
                ) is None,
                Err(FetchError::PartialResolutionFailure) => false,
            },
    {
        if self.fails(id) {
            return Err(FetchError::SourceUnavailable);
        }
        let item = match self.lookup(id) {
            Some(ItemRecord::Story(s)) => s.clone(),
            _ => {
                return Err(FetchError::NotFound);
            },
        };
        let comments = self.resolve_comment_forest(&item.kids, max_depth);
        Ok(StoryDetail { item, comments })
    }
}

} // verus!
