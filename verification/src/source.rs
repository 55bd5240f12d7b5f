//! The remote item source, modelled as an immutable snapshot.
//!
//! The real service is a network endpoint keyed by integer item IDs.  The
//! transport itself is outside this crate; whatever performs it hands the
//! library one [`RemoteSource`] value describing, for one resolution pass,
//! what each request would have returned:
//! * one ranked ID list per sort category, or `None` where the ranked-list
//!   request itself fails in transport;
//! * a record table keyed by ID — an ID absent from it resolves to null;
//! * the set of IDs whose individual fetch fails in transport;
//! * a completion-order flag: batched fetches may hand their results back
//!   in an order other than request order, which the assembly code must
//!   undo (and is proved to undo).

use vstd::prelude::*;

use crate::model::{ItemRecord, StoryItem, StorySorting};

verus! {

/// One snapshot of the remote item source, as seen by a single resolution
/// pass.  Fetching is read-only: every accessor is a pure function of the
/// snapshot.
pub struct RemoteSource {
    /// Ranked story IDs for [`StorySorting::Top`]; `None` = transport failure.
    pub ranked_top: Option<Vec<u64>>,
    /// Ranked story IDs for [`StorySorting::New`].
    pub ranked_new: Option<Vec<u64>>,
    /// Ranked story IDs for [`StorySorting::Best`].
    pub ranked_best: Option<Vec<u64>>,
    /// Ranked story IDs for [`StorySorting::Show`].
    pub ranked_show: Option<Vec<u64>>,
    /// Record table; the first pair whose key matches answers the lookup.
    pub items: Vec<(u64, ItemRecord)>,
    /// IDs whose individual item fetch fails in transport.
    pub failing: Vec<u64>,
    /// When set, batched fetches complete back to front instead of front to
    /// back, standing in for out-of-order completion of concurrent requests.
    pub reversed_completion: bool,
}

/// First record in `items` keyed by `id`, if any.
pub open spec fn record_in(items: Seq<(u64, ItemRecord)>, id: u64) -> Option<ItemRecord>
    decreases items,
{
    if items.len() == 0 {
        None
    } else if items[0].0 == id {
        Some(items[0].1)
    } else {
        record_in(items.drop_first(), id)
    }
}

/// If the first `i` keys all differ from `id` and position `i` matches, the
/// lookup answers with position `i`.
pub proof fn lemma_record_in_found(items: Seq<(u64, ItemRecord)>, id: u64, i: int)
    requires
        0 <= i < items.len(),
        items[i].0 == id,
        forall|j: int| 0 <= j < i ==> (#[trigger] items[j]).0 != id,
    ensures
        record_in(items, id) == Some(items[i].1),
    decreases items,
{
    if i > 0 {
        lemma_record_in_found(items.drop_first(), id, i - 1);
    }
}

/// If no key matches, the lookup answers with nothing.
pub proof fn lemma_record_in_absent(items: Seq<(u64, ItemRecord)>, id: u64)
    requires
        forall|j: int| 0 <= j < items.len() ==> (#[trigger] items[j]).0 != id,
    ensures
        record_in(items, id) is None,
    decreases items,
{
    if items.len() > 0 {
        lemma_record_in_absent(items.drop_first(), id);
    }
}

impl RemoteSource {
    /// The ranked ID list the source serves for `sort`, or `None` where the
    /// ranked-list request fails in transport.
    pub open spec fn spec_ranked(self, sort: StorySorting) -> Option<Seq<u64>> {
        let ranked = match sort {
            StorySorting::Top => self.ranked_top,
            StorySorting::New => self.ranked_new,
            StorySorting::Best => self.ranked_best,
            StorySorting::Show => self.ranked_show,
        };
        match ranked {
            Some(v) => Some(v@),
            None => None,
        }
    }

    /// Whether the individual fetch of `id` fails in transport.
    pub open spec fn spec_fails(self, id: u64) -> bool {
        self.failing@.contains(id)
    }

    /// The record the source resolves `id` to, ignoring transport: `None`
    /// is the null answer for an unknown (or deleted-and-dropped) ID.
    pub open spec fn spec_record(self, id: u64) -> Option<ItemRecord> {
        record_in(self.items@, id)
    }

    /// The story record behind `id`, ignoring transport; `None` when the ID
    /// is unknown or names a comment.
    pub open spec fn spec_story_record(self, id: u64) -> Option<StoryItem> {
        match self.spec_record(id) {
            Some(ItemRecord::Story(s)) => Some(s),
            _ => None,
        }
    }

    /// What resolving `id` to a story yields once transport is accounted
    /// for: `None` on transport failure, null answer, or a non-story record.
    /// These three collapse together because a listing treats them alike.
    pub open spec fn spec_story_of(self, id: u64) -> Option<StoryItem> {
        if self.spec_fails(id) {
            None
        } else {
            self.spec_story_record(id)
        }
    }

    /// The ranked-ID list request for `sort`: the served list, or `None`
    /// where the request fails in transport.
    pub fn ranked_ids(&self, sort: StorySorting) -> (r: &Option<Vec<u64>>)
        ensures
            match r {
                Some(v) => self.spec_ranked(sort) == Some(v@),
                None => self.spec_ranked(sort) is None,
            },
    {
        match sort {
            StorySorting::Top => &self.ranked_top,
            StorySorting::New => &self.ranked_new,
            StorySorting::Best => &self.ranked_best,
            StorySorting::Show => &self.ranked_show,
        }
    }

    /// Whether the individual fetch of `id` fails in transport.
    pub fn fails(&self, id: u64) -> (b: bool)
        ensures
            b == self.spec_fails(id),
    {
        let mut i: usize = 0;
        while i < self.failing.len()
            invariant
                0 <= i <= self.failing.len(),
                forall|j: int| 0 <= j < i ==> self.failing@[j] != id,
            decreases self.failing.len() - i,
        {
            if self.failing[i] == id {
                return true;
            }
            i += 1;
        }
        false
    }

    /// Look the record for `id` up in the snapshot's table (transport not
    /// modelled here; see [`RemoteSource::fetch_story`]).
    pub fn lookup(&self, id: u64) -> (r: Option<&ItemRecord>)
        ensures
            match r {
                Some(rec) => self.spec_record(id) == Some(*rec),
                None => self.spec_record(id) is None,
            },
    {
        let mut i: usize = 0;
        while i < self.items.len()
            invariant
                0 <= i <= self.items.len(),
                forall|j: int| 0 <= j < i ==> (#[trigger] self.items@[j]).0 != id,
            decreases self.items.len() - i,
        {
            if self.items[i].0 == id {
                proof {
                    lemma_record_in_found(self.items@, id, i as int);
                }
                return Some(&self.items[i].1);
            }
            i += 1;
        }
        proof {
            lemma_record_in_absent(self.items@, id);
        }
        None
    }

    /// Fetch `id` and keep it only if it resolves to a story: the result is
    /// exactly [`RemoteSource::spec_story_of`], up to view equality.
    pub fn fetch_story(&self, id: u64) -> (r: Option<StoryItem>)
        ensures
            match r {
                Some(s) => self.spec_story_of(id) is Some && s@ == self.spec_story_of(id)->Some_0@,
                None => self.spec_story_of(id) is None,
            },
    {
        if self.fails(id) {
            return None;
        }
        match self.lookup(id) {
            Some(ItemRecord::Story(s)) => Some(s.clone()),
            _ => None,
        }
    }
}

} // verus!
