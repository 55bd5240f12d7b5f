use hn_core::model::{
    CommentNode, CommentRecord, FetchError, ItemRecord, StoryItem, StorySorting, UnresolvedReason,
};
use hn_core::source::RemoteSource;

fn story(id: u64, title: &str, url: Option<&str>, kids: Vec<u64>) -> StoryItem {
    StoryItem {
        id,
        title: title.to_string(),
        url: url.map(|u| u.to_string()),
        by: format!("author{}", id),
        score: 10 * id as i64,
        time: 1_700_000_000 + id as i64,
        kids,
    }
}

fn comment(id: u64, text: &str, kids: Vec<u64>) -> CommentRecord {
    CommentRecord {
        id,
        by: format!("user{}", id),
        text: text.to_string(),
        time: 1_700_000_000 + id as i64,
        kids,
        deleted: false,
    }
}

fn empty_source() -> RemoteSource {
    RemoteSource {
        ranked_top: None,
        ranked_new: None,
        ranked_best: None,
        ranked_show: None,
        items: vec![],
        failing: vec![],
        reversed_completion: false,
    }
}

fn listing_source(reversed: bool) -> RemoteSource {
    let mut src = empty_source();
    src.ranked_top = Some(vec![5, 6, 7]);
    src.items = vec![
        (5, ItemRecord::Story(story(5, "five", Some("https://example.com/5"), vec![50]))),
        (6, ItemRecord::Story(story(6, "six", None, vec![]))),
        (7, ItemRecord::Story(story(7, "seven", Some(""), vec![70, 71]))),
    ];
    src.reversed_completion = reversed;
    src
}

#[test]
fn listing_takes_first_two_in_rank_order() {
    // rankedIds(Top) = [5,6,7], limit = 2: summaries for 5 and 6, in that order.
    let src = listing_source(false);
    let list = src.fetch_story_list(StorySorting::Top, 2).unwrap();
    assert_eq!(list.len(), 2);
    assert_eq!(list[0].id, 5);
    assert_eq!(list[0].title, "five");
    assert_eq!(list[1].id, 6);
    assert_eq!(list[1].title, "six");
}

#[test]
fn listing_order_survives_reversed_completion() {
    // The same listing, with per-ID fetches completing back to front: the
    // returned order must still be rank order, and the whole result equal.
    let in_order = listing_source(false).fetch_story_list(StorySorting::Top, 3).unwrap();
    let reversed = listing_source(true).fetch_story_list(StorySorting::Top, 3).unwrap();
    assert_eq!(in_order, reversed);
    let ids: Vec<u64> = in_order.iter().map(|s| s.id).collect();
    assert_eq!(ids, vec![5, 6, 7]);
}

#[test]
fn listing_limit_beyond_ranked_list_returns_all() {
    let src = listing_source(true);
    let list = src.fetch_story_list(StorySorting::Top, 10).unwrap();
    assert_eq!(list.iter().map(|s| s.id).collect::<Vec<u64>>(), vec![5, 6, 7]);
}

#[test]
fn listing_limit_zero_is_empty() {
    let src = listing_source(false);
    let list = src.fetch_story_list(StorySorting::Top, 0).unwrap();
    assert!(list.is_empty());
}

#[test]
fn listing_unreachable_ranked_endpoint_is_source_unavailable() {
    let src = listing_source(false);
    assert_eq!(src.fetch_story_list(StorySorting::New, 2), Err(FetchError::SourceUnavailable));
    assert_eq!(src.fetch_story_list(StorySorting::Best, 2), Err(FetchError::SourceUnavailable));
    assert_eq!(src.fetch_story_list(StorySorting::Show, 2), Err(FetchError::SourceUnavailable));
}

#[test]
fn listing_failed_item_fetch_fails_whole_listing() {
    let mut src = listing_source(false);
    src.failing = vec![6];
    assert_eq!(
        src.fetch_story_list(StorySorting::Top, 3),
        Err(FetchError::PartialResolutionFailure)
    );
    // ... but IDs past the limit may fail freely.
    src.failing = vec![7];
    let list = src.fetch_story_list(StorySorting::Top, 2).unwrap();
    assert_eq!(list.len(), 2);
}

#[test]
fn listing_missing_record_fails_whole_listing() {
    let mut src = listing_source(false);
    src.ranked_top = Some(vec![5, 99, 6]);
    assert_eq!(
        src.fetch_story_list(StorySorting::Top, 3),
        Err(FetchError::PartialResolutionFailure)
    );
}

#[test]
fn listing_distinguishes_absent_url_from_empty_url() {
    let src = listing_source(false);
    let list = src.fetch_story_list(StorySorting::Top, 3).unwrap();
    assert_eq!(list[0].url.as_deref(), Some("https://example.com/5"));
    assert_eq!(list[1].url, None);
    assert_eq!(list[2].url.as_deref(), Some(""));
}

#[test]
fn listing_serves_each_sort_category_its_own_ranking() {
    let mut src = listing_source(false);
    src.ranked_new = Some(vec![6]);
    src.ranked_best = Some(vec![7]);
    src.ranked_show = Some(vec![5]);
    let new = src.fetch_story_list(StorySorting::New, 5).unwrap();
    let best = src.fetch_story_list(StorySorting::Best, 5).unwrap();
    let show = src.fetch_story_list(StorySorting::Show, 5).unwrap();
    assert_eq!(new[0].id, 6);
    assert_eq!(best[0].id, 7);
    assert_eq!(show[0].id, 5);
}

#[test]
fn listing_keeps_duplicate_ranked_ids_in_place() {
    let mut src = listing_source(true);
    src.ranked_top = Some(vec![5, 5, 6]);
    let list = src.fetch_story_list(StorySorting::Top, 3).unwrap();
    assert_eq!(list.iter().map(|s| s.id).collect::<Vec<u64>>(), vec![5, 5, 6]);
}

#[test]
fn reassembly_restores_rank_order_from_scrambled_completions() {
    // The join step alone: completions recorded in an arbitrary order come
    // back keyed to the requested IDs, in request order.
    let ids = vec![5u64, 6, 7];
    let completions = vec![
        (7u64, Some(story(7, "seven", None, vec![]))),
        (5u64, Some(story(5, "five", None, vec![]))),
        (6u64, None),
    ];
    let r = hn_core::listing::reassemble_in_rank_order(&ids, &completions);
    assert_eq!(r.len(), 3);
    assert_eq!(r[0].as_ref().map(|s| s.id), Some(5));
    assert_eq!(r[1].as_ref().map(|s| s.id), None);
    assert_eq!(r[2].as_ref().map(|s| s.id), Some(7));
    assert_eq!(r[0].as_ref().unwrap().title, "five");
}

#[test]
fn scheduled_fetch_answers_every_requested_id() {
    let src = listing_source(true);
    let ids = vec![5u64, 6, 7];
    let completions = src.fetch_stories_scheduled(&ids);
    assert_eq!(completions.len(), 3);
    for id in &ids {
        let answer = completions.iter().find(|(k, _)| k == id).expect("every ID is answered");
        assert_eq!(answer.1.as_ref().map(|s| s.id), Some(*id));
    }
}

fn node_id(n: &CommentNode) -> u64 {
    match n {
        CommentNode::Comment { id, .. } => *id,
        CommentNode::Tombstone { id } => *id,
        CommentNode::Unresolved { id, .. } => *id,
        CommentNode::DepthLimitReached { id } => *id,
    }
}

#[test]
fn forest_preserves_declared_child_order() {
    // Children [3,1,2] come back as [3,1,2], not sorted, not by completion.
    let mut src = empty_source();
    src.items = vec![
        (8, ItemRecord::Comment(comment(8, "parent", vec![3, 1, 2]))),
        (1, ItemRecord::Comment(comment(1, "one", vec![]))),
        (2, ItemRecord::Comment(comment(2, "two", vec![]))),
        (3, ItemRecord::Comment(comment(3, "three", vec![]))),
    ];
    src.reversed_completion = true;
    let forest = src.resolve_comment_forest(&vec![8], 10);
    assert_eq!(forest.len(), 1);
    match &forest[0] {
        CommentNode::Comment { id, sub_comments, .. } => {
            assert_eq!(*id, 8);
            let ids: Vec<u64> = sub_comments.iter().map(node_id).collect();
            assert_eq!(ids, vec![3, 1, 2]);
        },
        other => panic!("expected a live comment, got {:?}", other),
    }
}

#[test]
fn forest_tombstones_deleted_record_in_place() {
    let mut src = empty_source();
    let mut dead = comment(2, "gone", vec![]);
    dead.deleted = true;
    src.items = vec![
        (1, ItemRecord::Comment(comment(1, "one", vec![]))),
        (2, ItemRecord::Comment(dead)),
        (3, ItemRecord::Comment(comment(3, "three", vec![]))),
    ];
    let forest = src.resolve_comment_forest(&vec![1, 2, 3], 5);
    assert_eq!(forest.iter().map(node_id).collect::<Vec<u64>>(), vec![1, 2, 3]);
    assert!(matches!(forest[0], CommentNode::Comment { .. }));
    assert_eq!(forest[1], CommentNode::Tombstone { id: 2 });
    assert!(matches!(forest[2], CommentNode::Comment { .. }));
}

#[test]
fn forest_tombstones_empty_text_and_missing_records() {
    let mut src = empty_source();
    src.items = vec![
        (1, ItemRecord::Comment(comment(1, "", vec![]))),
        (3, ItemRecord::Story(story(3, "not a comment", None, vec![]))),
    ];
    let forest = src.resolve_comment_forest(&vec![1, 2, 3], 5);
    assert_eq!(forest[0], CommentNode::Tombstone { id: 1 });
    assert_eq!(forest[1], CommentNode::Tombstone { id: 2 });
    assert_eq!(forest[2], CommentNode::Tombstone { id: 3 });
}

#[test]
fn forest_stops_at_depth_ceiling() {
    // A chain 1 -> 2 -> 3 -> 4 -> 5: with max_depth = 3 the fourth level is
    // a DepthLimitReached marker and nothing below it is ever resolved.
    let mut src = empty_source();
    src.items = vec![
        (1, ItemRecord::Comment(comment(1, "c1", vec![2]))),
        (2, ItemRecord::Comment(comment(2, "c2", vec![3]))),
        (3, ItemRecord::Comment(comment(3, "c3", vec![4]))),
        (4, ItemRecord::Comment(comment(4, "c4", vec![5]))),
        (5, ItemRecord::Comment(comment(5, "c5", vec![]))),
    ];
    let forest = src.resolve_comment_forest(&vec![1], 3);
    let n1 = &forest[0];
    let n2 = match n1 {
        CommentNode::Comment { id: 1, sub_comments, .. } => &sub_comments[0],
        other => panic!("unexpected {:?}", other),
    };
    let n3 = match n2 {
        CommentNode::Comment { id: 2, sub_comments, .. } => &sub_comments[0],
        other => panic!("unexpected {:?}", other),
    };
    let n4 = match n3 {
        CommentNode::Comment { id: 3, sub_comments, .. } => &sub_comments[0],
        other => panic!("unexpected {:?}", other),
    };
    assert_eq!(*n4, CommentNode::DepthLimitReached { id: 4 });
}

#[test]
fn forest_depth_ceiling_bounds_a_self_referencing_thread() {
    // A record that lists itself as its own reply stands in for an
    // infinitely deep thread; resolution still returns, and the cycle guard
    // cuts the repeated ID off before the ceiling is even reached.
    let mut src = empty_source();
    src.items = vec![(9, ItemRecord::Comment(comment(9, "loop", vec![9])))];
    let forest = src.resolve_comment_forest(&vec![9], 50);
    match &forest[0] {
        CommentNode::Comment { id: 9, sub_comments, .. } => {
            assert_eq!(
                sub_comments[0],
                CommentNode::Unresolved { id: 9, reason: UnresolvedReason::CycleDetected }
            );
        },
        other => panic!("unexpected {:?}", other),
    }
}

#[test]
fn forest_keeps_siblings_and_ancestors_of_a_failed_fetch() {
    // One failing ID in the middle of a level: every sibling and the parent
    // are still there, only that position is Unresolved.
    let mut src = empty_source();
    src.items = vec![
        (8, ItemRecord::Comment(comment(8, "parent", vec![1, 2, 3]))),
        (1, ItemRecord::Comment(comment(1, "one", vec![]))),
        (2, ItemRecord::Comment(comment(2, "two", vec![]))),
        (3, ItemRecord::Comment(comment(3, "three", vec![]))),
    ];
    src.failing = vec![2];
    let forest = src.resolve_comment_forest(&vec![8], 10);
    match &forest[0] {
        CommentNode::Comment { id: 8, sub_comments, .. } => {
            assert_eq!(sub_comments.len(), 3);
            assert!(matches!(sub_comments[0], CommentNode::Comment { id: 1, .. }));
            assert_eq!(
                sub_comments[1],
                CommentNode::Unresolved { id: 2, reason: UnresolvedReason::FetchFailed }
            );
            assert!(matches!(sub_comments[2], CommentNode::Comment { id: 3, .. }));
        },
        other => panic!("unexpected {:?}", other),
    }
}

#[test]
fn detail_resolves_story_and_forest() {
    // Story 42 has kids [10, 11]; 10 has no kids; 11's fetch fails: the
    // forest is [Comment(10, children = []), Unresolved(11)].
    let mut src = empty_source();
    src.items = vec![
        (42, ItemRecord::Story(story(42, "deep thread", Some("https://example.com"), vec![10, 11]))),
        (10, ItemRecord::Comment(comment(10, "first", vec![]))),
        (11, ItemRecord::Comment(comment(11, "never seen", vec![]))),
    ];
    src.failing = vec![11];
    let detail = src.fetch_story_detail(42, 8).unwrap();
    assert_eq!(detail.item.id, 42);
    assert_eq!(detail.item.title, "deep thread");
    assert_eq!(detail.comments.len(), 2);
    match &detail.comments[0] {
        CommentNode::Comment { id: 10, sub_comments, .. } => assert!(sub_comments.is_empty()),
        other => panic!("unexpected {:?}", other),
    }
    assert_eq!(
        detail.comments[1],
        CommentNode::Unresolved { id: 11, reason: UnresolvedReason::FetchFailed }
    );
}

#[test]
fn detail_unknown_id_is_not_found() {
    let src = listing_source(false);
    assert!(matches!(src.fetch_story_detail(404, 5), Err(FetchError::NotFound)));
}

#[test]
fn detail_comment_id_is_not_found() {
    let mut src = empty_source();
    src.items = vec![(10, ItemRecord::Comment(comment(10, "not a story", vec![])))];
    assert!(matches!(src.fetch_story_detail(10, 5), Err(FetchError::NotFound)));
}

#[test]
fn detail_transport_failure_is_source_unavailable() {
    let mut src = listing_source(false);
    src.failing = vec![5];
    assert!(matches!(src.fetch_story_detail(5, 5), Err(FetchError::SourceUnavailable)));
}

#[test]
fn detail_story_with_no_comments_has_empty_forest() {
    let src = listing_source(false);
    let detail = src.fetch_story_detail(6, 5).unwrap();
    assert!(detail.comments.is_empty());
}
