//! The story index fetcher.
//!
//! `fetch_story_list` asks the source for the ranked ID list of a sort
//! category, takes the first `limit` IDs, resolves each to a full story
//! record, and returns the summaries **in rank order** — even though the
//! per-ID fetches may complete in any order.  The completion order is made
//! explicit here: a batched fetch hands back `(id, result)` pairs in the
//! source's completion order, and `reassemble_in_rank_order` restores rank
//! order at the join point, by ID, never by position.
//!
//! Failure policy: a failed ranked-list request fails the listing with
//! `SourceUnavailable`; any selected ID that does not resolve to a story
//! fails it with `PartialResolutionFailure` — items are never silently
//! dropped, which would corrupt rank order.

use vstd::prelude::*;

use crate::model::{FetchError, StoryItem, StorySorting, story_opt_eq};
use crate::source::RemoteSource;

verus! {

/// Some completion in `comps` answers `id`.
pub open spec fn answered(comps: Seq<(u64, Option<StoryItem>)>, id: u64) -> bool {
    exists|j: int| 0 <= j < comps.len() && (#[trigger] comps[j]).0 == id
}

/// Some completion in `comps` answers `id` with `val` (up to view equality).
pub open spec fn answer_matches(
    comps: Seq<(u64, Option<StoryItem>)>,
    id: u64,
    val: Option<StoryItem>,
) -> bool {
    exists|j: int| 0 <= j < comps.len() && (#[trigger] comps[j]).0 == id && story_opt_eq(
        val,
        comps[j].1,
    )
}

/// How many entries a listing over `ranked` has under `limit`.
pub open spec fn listing_len(ranked: Seq<u64>, limit: int) -> int {
    if limit <= ranked.len() {
        limit
    } else {
        ranked.len() as int
    }
}

impl RemoteSource {
    /// Position `i` of listing `list` is the story behind `ranked[i]`.
    pub open spec fn listing_ok_at(self, ranked: Seq<u64>, list: Seq<StoryItem>, i: int) -> bool {
        &&& self.spec_story_of(ranked[i]) is Some
        &&& list[i]@ == self.spec_story_of(ranked[i])->Some_0@
    }

    /// Resolve every requested ID, handing the pairs back in the source's
    /// completion order: request order when `reversed_completion` is unset,
    /// reversed when it is set.  The contract deliberately promises nothing
    /// about the order — only that every requested ID is answered, and each
    /// answer belongs to the ID it is paired with — so callers must restore
    /// rank order themselves.
    pub fn fetch_stories_scheduled(&self, ids: &Vec<u64>) -> (r: Vec<(u64, Option<StoryItem>)>)
        ensures
            r@.len() == ids@.len(),
            forall|j: int| 0 <= j < r@.len() ==> story_opt_eq(
                (#[trigger] r@[j]).1,
                self.spec_story_of(r@[j].0),
            ),
            forall|i: int| 0 <= i < ids@.len() ==> answered(r@, #[trigger] ids@[i]),
    {
        let n = ids.len();
        let mut r: Vec<(u64, Option<StoryItem>)> = Vec::new();
        if self.reversed_completion {
            let mut k: usize = 0;
            while k < n
                invariant
                    n == ids@.len(),
                    r@.len() == k,
                    0 <= k <= n,
                    forall|j: int| 0 <= j < k ==> (#[trigger] r@[j]).0 == ids@[n - 1 - j],
                    forall|j: int| 0 <= j < k ==> story_opt_eq(
                        (#[trigger] r@[j]).1,
                        self.spec_story_of(r@[j].0),
                    ),
                decreases n - k,
            {
                let id = ids[n - 1 - k];
                r.push((id, self.fetch_story(id)));
                k += 1;
            }
            proof {
                assert forall|i: int| 0 <= i < ids@.len() implies answered(
                    r@,
                    #[trigger] ids@[i],
                ) by {
                    assert(r@[n - 1 - i].0 == ids@[i]);
                }
            }
        } else {
            let mut k: usize = 0;
            while k < n
                invariant
                    n == ids@.len(),
                    r@.len() == k,
                    0 <= k <= n,
                    forall|j: int| 0 <= j < k ==> (#[trigger] r@[j]).0 == ids@[j],
                    forall|j: int| 0 <= j < k ==> story_opt_eq(
                        (#[trigger] r@[j]).1,
                        self.spec_story_of(r@[j].0),
                    ),
                decreases n - k,
            {
                let id = ids[k];
                r.push((id, self.fetch_story(id)));
                k += 1;
            }
            proof {
                assert forall|i: int| 0 <= i < ids@.len() implies answered(
                    r@,
                    #[trigger] ids@[i],
                ) by {
                    assert(r@[i].0 == ids@[i]);
                }
            }
        }
        r
    }

    /// Request the ranked story listing for `sort`, resolve the first
    /// `limit` IDs, and return their summaries in rank order.
    ///
    /// The `Ok` clause is the listing's whole story: the ranked list was
    /// served, the result has one entry per selected ID, and entry `i` is
    /// the story behind ranked ID `i` — completion order never shows.
    /// Each error names exactly the inputs that produce it.
    pub fn fetch_story_list(&self, sort: StorySorting, limit: usize) -> (r: Result<
        Vec<StoryItem>,
        FetchError,
    >)
        ensures
            match r {
                Ok(list) => {
                    &&& self.spec_ranked(sort) is Some
                    &&& list@.len() == listing_len(self.spec_ranked(sort)->Some_0, limit as int)
                    &&& forall|i: int| 0 <= i < list@.len() ==> #[trigger] self.listing_ok_at(
                        self.spec_ranked(sort)->Some_0,
                        list@,
                        i,
                    )
                },
                Err(FetchError::SourceUnavailable) => self.spec_ranked(sort) is None,
                Err(FetchError::PartialResolutionFailure) => {
                    &&& self.spec_ranked(sort) is Some
                    &&& exists|i: int| 0 <= i < listing_len(
                        self.spec_ranked(sort)->Some_0,
                        limit as int,
                    ) && self.spec_story_of(
                        #[trigger] self.spec_ranked(sort)->Some_0[i],
                    ) is None
                },
                Err(FetchError::NotFound) => false,
            },
    {
        let ranked = match self.ranked_ids(sort) {
            Some(v) => v,
            None => {
                return Err(FetchError::SourceUnavailable);
            },
        };
        let n: usize = if limit <= ranked.len() {
            limit
        } else {
            ranked.len()
        };
        let mut ids: Vec<u64> = Vec::new();
        let mut i: usize = 0;
        while i < n
            invariant
                0 <= i <= n,
                n <= ranked@.len(),
                ids@.len() == i,
                forall|j: int| 0 <= j < i ==> #[trigger] ids@[j] == ranked@[j],
            decreases n - i,
        {
            ids.push(ranked[i]);
            i += 1;
        }
        let completions = self.fetch_stories_scheduled(&ids);
        let resolved = reassemble_in_rank_order(&ids, &completions);
        proof {
            assert forall|k: int| 0 <= k < ids@.len() implies story_opt_eq(
                resolved@[k],
                self.spec_story_of(ids@[k]),
            ) by {
                assert(answer_matches(completions@, ids@[k], resolved@[k]));
                let j = choose|j: int|
                    0 <= j < completions@.len() && (#[trigger] completions@[j]).0 == ids@[k]
                        && story_opt_eq(resolved@[k], completions@[j].1);
            }
        }
        let mut out: Vec<StoryItem> = Vec::new();
        let mut k: usize = 0;
        while k < resolved.len()
            invariant
                0 <= k <= resolved@.len(),
                self.spec_ranked(sort) == Some(ranked@),
                n == listing_len(ranked@, limit as int),
                resolved@.len() == n,
                ids@.len() == n,
                forall|j: int| 0 <= j < n ==> #[trigger] ids@[j] == ranked@[j],
                out@.len() == k,
                forall|j: int| 0 <= j < resolved@.len() ==> story_opt_eq(
                    #[trigger] resolved@[j],
                    self.spec_story_of(ids@[j]),
                ),
                forall|j: int| 0 <= j < k ==> self.spec_story_of(#[trigger] ids@[j]) is Some,
                forall|j: int| 0 <= j < k ==> #[trigger] out@[j]@ == self.spec_story_of(
                    ids@[j],
                )->Some_0@,
            decreases resolved.len() - k,
        {
            match &resolved[k] {
                Some(s) => {
                    out.push(s.clone());
                },
                None => {
                    proof {
                        assert(self.spec_story_of(
                            self.spec_ranked(sort)->Some_0[k as int],
                        ) is None);
                    }
                    return Err(FetchError::PartialResolutionFailure);
                },
            }
            k += 1;
        }
        proof {
            assert forall|i: int| 0 <= i < out@.len() implies #[trigger] self.listing_ok_at(
                self.spec_ranked(sort)->Some_0,
                out@,
                i,
            ) by {
                assert(ids@[i] == ranked@[i]);
            }
        }
        Ok(out)
    }
}

/// Restore rank order at the join point: position `i` of the result carries
/// the completion recorded for `ids[i]`, found by ID.  This is the explicit
/// re-assembly step that makes the listing independent of completion order.
pub fn reassemble_in_rank_order(
    ids: &Vec<u64>,
    completions: &Vec<(u64, Option<StoryItem>)>,
) -> (r: Vec<Option<StoryItem>>)
    requires
        forall|i: int| 0 <= i < ids@.len() ==> answered(completions@, #[trigger] ids@[i]),
    ensures
        r@.len() == ids@.len(),
        forall|i: int| 0 <= i < ids@.len() ==> answer_matches(
            completions@,
            #[trigger] ids@[i],
            r@[i],
        ),
{
    let mut r: Vec<Option<StoryItem>> = Vec::new();
    let mut i: usize = 0;
    while i < ids.len()
        invariant
            0 <= i <= ids@.len(),
            r@.len() == i,
            forall|k: int| 0 <= k < ids@.len() ==> answered(completions@, #[trigger] ids@[k]),
            forall|k: int| 0 <= k < i ==> answer_matches(
                completions@,
                #[trigger] ids@[k],
                r@[k],
            ),
        decreases ids.len() - i,
    {
        let id = ids[i];
        let j = find_completion(completions, id);
        let entry = match &completions[j].1 {
            Some(s) => Some(s.clone()),
            None => None,
        };
        r.push(entry);
        proof {
            assert(completions@[j as int].0 == ids@[i as int] && story_opt_eq(
                r@[i as int],
                completions@[j as int].1,
            ));
        }
        i += 1;
    }
    r
}

/// Index of some completion recorded for `id`; the caller guarantees one
/// exists.
fn find_completion(completions: &Vec<(u64, Option<StoryItem>)>, id: u64) -> (k: usize)
    requires
        answered(completions@, id),
    ensures
        k < completions@.len(),
        completions@[k as int].0 == id,
{
    let mut i: usize = 0;
    while i < completions.len()
        invariant
            0 <= i <= completions@.len(),
            answered(completions@, id),
            forall|j: int| 0 <= j < i ==> (#[trigger] completions@[j]).0 != id,
        decreases completions.len() - i,
    {
        if completions[i].0 == id {
            return i;
        }
        i += 1;
    }
    proof {
        let j = choose|j: int|
            0 <= j < completions@.len() && (#[trigger] completions@[j]).0 == id;
        assert(false);
    }
    vstd::pervasive::unreached()
}

} // verus!
