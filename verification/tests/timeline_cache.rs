use notedeck_columns::keys::Pubkey;
use notedeck_columns::timeline::{NoteRef, Timeline, TimelineKind};
use notedeck_columns::timeline_cache::{TimelineCache, TimelineOpenResult, TimelineReleaseResult};

fn hashtag(tag: &str) -> TimelineKind {
    TimelineKind::Hashtag(tag.to_string())
}

#[test]
fn first_open_asks_for_a_subscription() {
    let mut cache = TimelineCache::new();
    assert_eq!(cache.open(&TimelineKind::Universe), TimelineOpenResult::Opened);
    let state = cache.get(&TimelineKind::Universe).unwrap();
    assert_eq!(state.subscribers(), 1);
    assert_eq!(state.subscription(), None);
    assert!(state.notes().is_empty());
    assert_eq!(*state.kind(), TimelineKind::Universe);
}

#[test]
fn repeated_open_is_shared() {
    let mut cache = TimelineCache::new();
    let kind = hashtag("bitcoin");
    let mut opened = 0;
    for _ in 0..5 {
        if cache.open(&kind) == TimelineOpenResult::Opened {
            opened += 1;
        }
    }
    assert_eq!(opened, 1);
    assert_eq!(cache.get(&kind).unwrap().subscribers(), 5);
}

#[test]
fn open_tells_feeds_apart_by_content() {
    let mut cache = TimelineCache::new();
    assert_eq!(cache.open(&hashtag("nostr")), TimelineOpenResult::Opened);
    // an equal definition built separately is the same feed
    assert_eq!(cache.open(&hashtag("nostr")), TimelineOpenResult::Reused);
    // same parameter, other variant
    assert_eq!(
        cache.open(&TimelineKind::Search("nostr".to_string())),
        TimelineOpenResult::Opened
    );
    // same variant, other parameter
    assert_eq!(cache.open(&hashtag("nostr2")), TimelineOpenResult::Opened);
    let a = Pubkey::new([1u8; 32]);
    let mut other = [1u8; 32];
    other[31] = 2;
    let b = Pubkey::new(other);
    assert_eq!(cache.open(&TimelineKind::Profile(a)), TimelineOpenResult::Opened);
    assert_eq!(cache.open(&TimelineKind::Profile(b)), TimelineOpenResult::Opened);
    assert_eq!(cache.open(&TimelineKind::Notifications(a)), TimelineOpenResult::Opened);
    assert_eq!(cache.open(&TimelineKind::Profile(Pubkey::new([1u8; 32]))), TimelineOpenResult::Reused);
    assert_eq!(cache.open(&TimelineKind::Generic(7)), TimelineOpenResult::Opened);
    assert_eq!(cache.open(&TimelineKind::Generic(8)), TimelineOpenResult::Opened);
    assert_eq!(cache.open(&TimelineKind::Generic(7)), TimelineOpenResult::Reused);
    assert_eq!(cache.get(&hashtag("nostr")).unwrap().subscribers(), 2);
    assert_eq!(cache.get(&TimelineKind::Profile(a)).unwrap().subscribers(), 2);
    assert_eq!(cache.get(&TimelineKind::Profile(b)).unwrap().subscribers(), 1);
    assert_eq!(cache.get(&TimelineKind::Generic(7)).unwrap().subscribers(), 2);
}

#[test]
fn release_closes_on_the_last_only() {
    let mut cache = TimelineCache::new();
    let kind = TimelineKind::Generic(3);
    for _ in 0..4 {
        cache.open(&kind);
    }
    assert!(cache.set_subscription(&kind, 99));
    for left in [3usize, 2, 1] {
        assert_eq!(cache.release(&kind), TimelineReleaseResult::Retained);
        let state = cache.get(&kind).unwrap();
        assert_eq!(state.subscribers(), left);
        assert_eq!(state.subscription(), Some(99));
    }
    assert_eq!(cache.release(&kind), TimelineReleaseResult::Closed(Some(99)));
    assert!(cache.get(&kind).is_none());
    // nothing is left to close a second time
    assert_eq!(cache.release(&kind), TimelineReleaseResult::Unknown);
}

#[test]
fn release_without_subscription_hands_out_none() {
    let mut cache = TimelineCache::new();
    cache.open(&TimelineKind::Universe);
    assert_eq!(cache.release(&TimelineKind::Universe), TimelineReleaseResult::Closed(None));
}

#[test]
fn release_of_unknown_feed_changes_nothing() {
    let mut cache = TimelineCache::new();
    cache.open(&TimelineKind::Universe);
    assert_eq!(cache.release(&hashtag("x")), TimelineReleaseResult::Unknown);
    assert_eq!(cache.get(&TimelineKind::Universe).unwrap().subscribers(), 1);
}

#[test]
fn release_leaves_other_feeds_alone() {
    let mut cache = TimelineCache::new();
    let a = hashtag("a");
    let b = hashtag("b");
    let c = hashtag("c");
    cache.open(&a);
    cache.open(&b);
    cache.open(&b);
    cache.open(&c);
    cache.set_subscription(&a, 1);
    cache.set_subscription(&b, 2);
    cache.set_subscription(&c, 3);
    assert_eq!(cache.release(&a), TimelineReleaseResult::Closed(Some(1)));
    assert_eq!(cache.get(&b).unwrap().subscribers(), 2);
    assert_eq!(cache.get(&b).unwrap().subscription(), Some(2));
    assert_eq!(cache.get(&c).unwrap().subscribers(), 1);
    assert_eq!(cache.get(&c).unwrap().subscription(), Some(3));
    assert!(cache.get(&a).is_none());
}

#[test]
fn reopen_after_close_asks_again() {
    let mut cache = TimelineCache::new();
    let kind = TimelineKind::Universe;
    assert_eq!(cache.open(&kind), TimelineOpenResult::Opened);
    assert_eq!(cache.release(&kind), TimelineReleaseResult::Closed(None));
    assert_eq!(cache.open(&kind), TimelineOpenResult::Opened);
    assert_eq!(cache.get(&kind).unwrap().subscribers(), 1);
}

#[test]
fn get_does_not_count() {
    let mut cache = TimelineCache::new();
    let kind = TimelineKind::Universe;
    assert!(cache.get(&kind).is_none());
    cache.open(&kind);
    for _ in 0..3 {
        assert_eq!(cache.get(&kind).unwrap().subscribers(), 1);
    }
    assert_eq!(cache.release(&kind), TimelineReleaseResult::Closed(None));
}

#[test]
fn set_subscription_of_unknown_feed() {
    let mut cache = TimelineCache::new();
    assert!(!cache.set_subscription(&TimelineKind::Universe, 5));
    assert!(cache.get(&TimelineKind::Universe).is_none());
}

#[test]
fn set_notes_replaces_the_notes() {
    let mut cache = TimelineCache::new();
    let kind = TimelineKind::Universe;
    let first = vec![NoteRef { key: 1, created_at: 10 }];
    assert!(!cache.set_notes(&kind, first.clone()));
    cache.open(&kind);
    cache.set_subscription(&kind, 4);
    assert!(cache.set_notes(&kind, first.clone()));
    assert_eq!(*cache.get(&kind).unwrap().notes(), first);
    let second = vec![NoteRef { key: 2, created_at: 20 }, NoteRef { key: 3, created_at: 15 }];
    assert!(cache.set_notes(&kind, second.clone()));
    let state = cache.get(&kind).unwrap();
    assert_eq!(*state.notes(), second);
    assert_eq!(state.subscribers(), 1);
    assert_eq!(state.subscription(), Some(4));
}

#[test]
fn insert_takes_the_state_as_it_is() {
    let mut cache = TimelineCache::new();
    let kind = hashtag("art");
    let notes = vec![NoteRef { key: 9, created_at: 1 }];
    assert!(cache.insert(Timeline::new(kind.clone(), notes.clone())).is_none());
    let state = cache.get(&kind).unwrap();
    assert_eq!(state.subscribers(), 0);
    assert_eq!(state.subscription(), None);
    assert_eq!(*state.notes(), notes);
    // a state without subscribers goes with the first release
    assert_eq!(cache.release(&kind), TimelineReleaseResult::Closed(None));
    assert!(cache.get(&kind).is_none());
}

#[test]
fn insert_replaces_the_state_of_the_feed() {
    let mut cache = TimelineCache::new();
    let kind = TimelineKind::Generic(1);
    cache.open(&kind);
    cache.open(&kind);
    cache.set_subscription(&kind, 12);
    cache.open(&TimelineKind::Universe);
    let replaced = cache.insert(Timeline::new(kind.clone(), Vec::new())).unwrap();
    assert_eq!(replaced.subscribers(), 2);
    assert_eq!(replaced.subscription(), Some(12));
    assert_eq!(*replaced.kind(), kind);
    let state = cache.get(&kind).unwrap();
    assert_eq!(state.subscribers(), 0);
    assert_eq!(state.subscription(), None);
    assert_eq!(cache.get(&TimelineKind::Universe).unwrap().subscribers(), 1);
    // the feed itself is open, so opening it is a reuse
    assert_eq!(cache.open(&kind), TimelineOpenResult::Reused);
    assert_eq!(cache.get(&kind).unwrap().subscribers(), 1);
}

#[test]
fn timeline_kind_clone_is_equal() {
    let kinds = vec![
        TimelineKind::Universe,
        TimelineKind::Notifications(Pubkey::new([3u8; 32])),
        TimelineKind::Profile(Pubkey::new([3u8; 32])),
        hashtag("tag"),
        TimelineKind::Search("tag".to_string()),
        TimelineKind::Generic(u64::MAX),
    ];
    for (i, a) in kinds.iter().enumerate() {
        assert_eq!(a.clone(), *a);
        for (j, b) in kinds.iter().enumerate() {
            assert_eq!(a == b, i == j);
        }
    }
}
