//! The register of open feeds. However many columns show a feed, the
//! register holds one state for it and one subscription feeds it.
//!
//! The register talks to no relay itself. `open` and `release` say in their
//! result what the caller has to ask of the relay pool: a new subscription
//! after [`TimelineOpenResult::Opened`], the end of one after
//! [`TimelineReleaseResult::Closed`].

use crate::timeline::{FeedId, FeedState, NoteRef, Timeline, TimelineKind};
use vstd::prelude::*;

verus! {

/// What opening a feed did.
#[derive(Clone, Copy, Debug, PartialEq, Eq, Structural)]
pub enum TimelineOpenResult {
    /// The feed was not open: it has a state now, and the caller asks the
    /// relay pool for a subscription to it.
    Opened,
    /// The feed was open already, and its subscription serves one column
    /// more.
    Reused,
}

/// What giving up a feed did.
#[derive(Clone, Copy, Debug, PartialEq, Eq, Structural)]
pub enum TimelineReleaseResult {
    /// The register holds no state for the feed; nothing changed.
    Unknown,
    /// Other columns still show the feed.
    Retained,
    /// No column shows the feed any more and its state is gone. The caller
    /// closes the subscription, where the feed had one.
    Closed(Option<u64>),
}

/// The state of a feed that one column has just opened.
pub open spec fn first_open(kind: FeedId) -> FeedState {
    FeedState { kind, subscription: None, notes: Seq::empty(), subscribers: 1 }
}

/// The feeds after one column has opened `kind`.
pub open spec fn opened(feeds: Map<FeedId, FeedState>, kind: FeedId) -> Map<FeedId, FeedState> {
    if feeds.contains_key(kind) {
        feeds.insert(kind, FeedState { subscribers: feeds[kind].subscribers + 1, ..feeds[kind] })
    } else {
        feeds.insert(kind, first_open(kind))
    }
}

/// What opening `kind` reports.
pub open spec fn open_result(feeds: Map<FeedId, FeedState>, kind: FeedId) -> TimelineOpenResult {
    if feeds.contains_key(kind) {
        TimelineOpenResult::Reused
    } else {
        TimelineOpenResult::Opened
    }
}

/// The feeds after one column has given up `kind`.
pub open spec fn released(feeds: Map<FeedId, FeedState>, kind: FeedId) -> Map<FeedId, FeedState> {
    if !feeds.contains_key(kind) {
        feeds
    } else if feeds[kind].subscribers <= 1 {
        feeds.remove(kind)
    } else {
        feeds.insert(
            kind,
            FeedState { subscribers: (feeds[kind].subscribers - 1) as nat, ..feeds[kind] },
        )
    }
}

/// What giving up `kind` reports.
pub open spec fn release_result(feeds: Map<FeedId, FeedState>, kind: FeedId) -> TimelineReleaseResult {
    if !feeds.contains_key(kind) {
        TimelineReleaseResult::Unknown
    } else if feeds[kind].subscribers <= 1 {
        TimelineReleaseResult::Closed(feeds[kind].subscription)
    } else {
        TimelineReleaseResult::Retained
    }
}

spec fn is_open(s: Seq<Timeline>, kind: FeedId) -> bool {
    exists|i: int| 0 <= i < s.len() && (#[trigger] s[i])@.kind == kind
}

spec fn index_of(s: Seq<Timeline>, kind: FeedId) -> int {
    choose|i: int| 0 <= i < s.len() && (#[trigger] s[i])@.kind == kind
}

spec fn distinct(s: Seq<Timeline>) -> bool {
    forall|i: int, j: int|
        0 <= i < j < s.len() ==> (#[trigger] s[i])@.kind != (#[trigger] s[j])@.kind
}

spec fn feeds_of(s: Seq<Timeline>) -> Map<FeedId, FeedState> {
    Map::new(|kind: FeedId| is_open(s, kind), |kind: FeedId| s[index_of(s, kind)]@)
}

proof fn lemma_lookup(s: Seq<Timeline>, i: int)
    requires
        distinct(s),
        0 <= i < s.len(),
    ensures
        is_open(s, s[i]@.kind),
        index_of(s, s[i]@.kind) == i,
        feeds_of(s).contains_key(s[i]@.kind),
        feeds_of(s)[s[i]@.kind] == s[i]@,
{
    let kind = s[i]@.kind;
    let j = index_of(s, kind);
    assert(0 <= j < s.len() && s[j]@.kind == kind);
    if j < i {
        assert(s[j]@.kind != s[i]@.kind);
    } else if i < j {
        assert(s[i]@.kind != s[j]@.kind);
    }
}

proof fn lemma_is_open(s: Seq<Timeline>, kind: FeedId)
    requires
        is_open(s, kind),
    ensures
        0 <= index_of(s, kind) < s.len(),
        s[index_of(s, kind)]@.kind == kind,
{
}

proof fn lemma_push(s: Seq<Timeline>, t: Timeline)
    requires
        distinct(s),
        !is_open(s, t@.kind),
    ensures
        distinct(s.push(t)),
        feeds_of(s.push(t)) == feeds_of(s).insert(t@.kind, t@),
{
    let s2 = s.push(t);
    assert forall|i: int, j: int| 0 <= i < j < s2.len() implies (#[trigger] s2[i])@.kind != (
    #[trigger] s2[j])@.kind by {
        if j < s.len() {
            assert(s[i]@.kind != s[j]@.kind);
        } else {
            assert(s[i]@.kind != t@.kind);
        }
    }
    assert forall|kind: FeedId| is_open(s2, kind) == (is_open(s, kind) || kind == t@.kind) by {
        if is_open(s2, kind) {
            let i = index_of(s2, kind);
            lemma_is_open(s2, kind);
            if i < s.len() {
                assert(s[i]@.kind == kind);
            }
        }
        if is_open(s, kind) {
            let i = index_of(s, kind);
            lemma_is_open(s, kind);
            assert(s2[i]@.kind == kind);
        }
        if kind == t@.kind {
            assert(s2[s.len() as int]@.kind == kind);
        }
    }
    assert forall|kind: FeedId| is_open(s2, kind) implies feeds_of(s2)[kind] == feeds_of(s).insert(
        t@.kind,
        t@,
    )[kind] by {
        let i = index_of(s2, kind);
        lemma_is_open(s2, kind);
        lemma_lookup(s2, i);
        if i < s.len() {
            assert(s[i]@.kind == kind);
            lemma_lookup(s, i);
        }
    }
    assert(feeds_of(s2) =~= feeds_of(s).insert(t@.kind, t@));
}

proof fn lemma_update(s: Seq<Timeline>, i: int, t: Timeline)
    requires
        distinct(s),
        0 <= i < s.len(),
        t@.kind == s[i]@.kind,
    ensures
        distinct(s.update(i, t)),
        feeds_of(s.update(i, t)) == feeds_of(s).insert(t@.kind, t@),
{
    let s2 = s.update(i, t);
    assert forall|a: int, b: int| 0 <= a < b < s2.len() implies (#[trigger] s2[a])@.kind != (
    #[trigger] s2[b])@.kind by {
        assert(s[a]@.kind != s[b]@.kind);
    }
    assert forall|kind: FeedId| is_open(s2, kind) == is_open(s, kind) by {
        if is_open(s2, kind) {
            let j = index_of(s2, kind);
            lemma_is_open(s2, kind);
            assert(s[j]@.kind == kind);
        }
        if is_open(s, kind) {
            let j = index_of(s, kind);
            lemma_is_open(s, kind);
            assert(s2[j]@.kind == kind);
        }
    }
    lemma_lookup(s, i);
    assert forall|kind: FeedId| is_open(s2, kind) implies feeds_of(s2)[kind] == feeds_of(s).insert(
        t@.kind,
        t@,
    )[kind] by {
        let j = index_of(s2, kind);
        lemma_is_open(s2, kind);
        lemma_lookup(s2, j);
        assert(s[j]@.kind == kind);
        lemma_lookup(s, j);
    }
    assert(feeds_of(s2) =~= feeds_of(s).insert(t@.kind, t@));
}

proof fn lemma_remove(s: Seq<Timeline>, i: int)
    requires
        distinct(s),
        0 <= i < s.len(),
    ensures
        distinct(s.remove(i)),
        feeds_of(s.remove(i)) == feeds_of(s).remove(s[i]@.kind),
{
    let s2 = s.remove(i);
    assert forall|a: int, b: int| 0 <= a < b < s2.len() implies (#[trigger] s2[a])@.kind != (
    #[trigger] s2[b])@.kind by {
        let a0 = if a < i { a } else { a + 1 };
        let b0 = if b < i { b } else { b + 1 };
        assert(s2[a] == s[a0] && s2[b] == s[b0]);
        assert(s[a0]@.kind != s[b0]@.kind);
    }
    assert forall|kind: FeedId| is_open(s2, kind) == (is_open(s, kind) && kind != s[i]@.kind) by {
        if is_open(s2, kind) {
            let j = index_of(s2, kind);
            lemma_is_open(s2, kind);
            let j0 = if j < i { j } else { j + 1 };
            assert(s2[j] == s[j0]);
            assert(s[j0]@.kind == kind);
            if j0 < i {
                assert(s[j0]@.kind != s[i]@.kind);
            } else {
                assert(s[i]@.kind != s[j0]@.kind);
            }
        }
        if is_open(s, kind) && kind != s[i]@.kind {
            let j0 = index_of(s, kind);
            lemma_is_open(s, kind);
            let j = if j0 < i { j0 } else { j0 - 1 };
            assert(s2[j] == s[j0]);
            assert(s2[j]@.kind == kind);
        }
    }
    assert forall|kind: FeedId| is_open(s2, kind) implies feeds_of(s2)[kind] == feeds_of(s).remove(
        s[i]@.kind,
    )[kind] by {
        let j = index_of(s2, kind);
        lemma_is_open(s2, kind);
        lemma_lookup(s2, j);
        let j0 = if j < i { j } else { j + 1 };
        assert(s2[j] == s[j0]);
        lemma_lookup(s, j0);
    }
    assert(feeds_of(s2) =~= feeds_of(s).remove(s[i]@.kind));
}

proof fn lemma_finite(s: Seq<Timeline>)
    requires
        distinct(s),
    ensures
        feeds_of(s).dom().finite(),
    decreases s.len(),
{
    if s.len() == 0 {
        assert(feeds_of(s).dom() =~= Set::<FeedId>::empty());
    } else {
        let front = s.drop_last();
        assert(distinct(front)) by {
            assert forall|i: int, j: int| 0 <= i < j < front.len() implies (#[trigger] front[i])@.kind
                != (#[trigger] front[j])@.kind by {
                assert(s[i]@.kind != s[j]@.kind);
            }
        }
        assert(!is_open(front, s.last()@.kind)) by {
            if is_open(front, s.last()@.kind) {
                let i = index_of(front, s.last()@.kind);
                lemma_is_open(front, s.last()@.kind);
                assert(s[i]@.kind != s[s.len() - 1]@.kind);
            }
        }
        lemma_finite(front);
        lemma_push(front, s.last());
        assert(front.push(s.last()) =~= s);
    }
}

/// The open feeds, one state for each. Its view maps each open feed to its
/// state.
#[derive(Debug)]
pub struct TimelineCache {
    timelines: Vec<Timeline>,
}

impl View for TimelineCache {
    type V = Map<FeedId, FeedState>;

    closed spec fn view(&self) -> Map<FeedId, FeedState> {
        feeds_of(self.timelines@)
    }
}

impl TimelineCache {
    /// No feed has two states.
    pub closed spec fn wf(&self) -> bool {
        distinct(self.timelines@)
    }

    /// Finitely many feeds are open, and each state is kept under the feed
    /// that it is the state of.
    pub proof fn lemma_keyed_by_kind(&self)
        requires
            self.wf(),
        ensures
            self@.dom().finite(),
            forall|kind: FeedId|
                self@.contains_key(kind) ==> (#[trigger] self@[kind]).kind == kind,
    {
        lemma_finite(self.timelines@);
        assert forall|kind: FeedId| self@.contains_key(kind) implies (#[trigger] self@[kind]).kind
            == kind by {
            lemma_is_open(self.timelines@, kind);
        }
    }

    /// A register with no open feed.
    pub fn new() -> (cache: Self)
        ensures
            cache.wf(),
            cache@ == Map::<FeedId, FeedState>::empty(),
    {
        let cache = TimelineCache { timelines: Vec::new() };
        assert(cache@ =~= Map::<FeedId, FeedState>::empty());
        cache
    }

    /// Where the state of `kind` lies, if the feed is open.
    fn position(&self, kind: &TimelineKind) -> (found: Option<usize>)
        ensures
            match found {
                Some(i) => i < self.timelines@.len() && self.timelines@[i as int]@.kind == kind@,
                None => !is_open(self.timelines@, kind@),
            },
    {
        let mut i: usize = 0;
        while i < self.timelines.len()
            invariant
                i <= self.timelines@.len(),
                forall|j: int| 0 <= j < i ==> (#[trigger] self.timelines@[j])@.kind != kind@,
            decreases self.timelines@.len() - i,
        {
            if *self.timelines[i].kind() == *kind {
                return Some(i);
            }
            i += 1;
        }
        None
    }

    /// The state of `kind`, if the feed is open. Looking does not count as
    /// showing the feed.
    pub fn get(&self, kind: &TimelineKind) -> (found: Option<&Timeline>)
        requires
            self.wf(),
        ensures
            found.is_some() == self@.contains_key(kind@),
            found.is_some() ==> found.unwrap()@ == self@[kind@],
    {
        match self.position(kind) {
            Some(i) => {
                proof {
                    lemma_lookup(self.timelines@, i as int);
                }
                Some(&self.timelines[i])
            },
            None => None,
        }
    }

    /// One more column shows `kind`. A feed that is open already is shared;
    /// one that is not gets a state with one subscriber, and the result asks
    /// for its subscription.
    pub fn open(&mut self, kind: &TimelineKind) -> (result: TimelineOpenResult)
        requires
            old(self).wf(),
            old(self)@.contains_key(kind@) ==> old(self)@[kind@].subscribers < usize::MAX,
        ensures
            final(self).wf(),
            final(self)@ == opened(old(self)@, kind@),
            result == open_result(old(self)@, kind@),
    {
        match self.position(kind) {
            Some(i) => {
                proof {
                    lemma_lookup(self.timelines@, i as int);
                }
                let timeline = &mut self.timelines[i];
                timeline.add_subscriber();
                proof {
                    lemma_update(old(self).timelines@, i as int, self.timelines@[i as int]);
                    assert(self.timelines@ =~= old(self).timelines@.update(
                        i as int,
                        self.timelines@[i as int],
                    ));
                }
                TimelineOpenResult::Reused
            },
            None => {
                let timeline = Timeline::first_open(kind.clone());
                proof {
                    lemma_push(self.timelines@, timeline);
                }
                self.timelines.push(timeline);
                TimelineOpenResult::Opened
            },
        }
    }

    /// Records the subscription that the relay pool gave for `kind`. Says
    /// whether the feed is open; for one that is not, nothing changes.
    pub fn set_subscription(&mut self, kind: &TimelineKind, handle: u64) -> (known: bool)
        requires
            old(self).wf(),
        ensures
            final(self).wf(),
            known == old(self)@.contains_key(kind@),
            final(self)@ == if known {
                old(self)@.insert(
                    kind@,
                    FeedState { subscription: Some(handle), ..old(self)@[kind@] },
                )
            } else {
                old(self)@
            },
    {
        match self.position(kind) {
            Some(i) => {
                proof {
                    lemma_lookup(self.timelines@, i as int);
                }
                let timeline = &mut self.timelines[i];
                timeline.set_subscription(handle);
                proof {
                    lemma_update(old(self).timelines@, i as int, self.timelines@[i as int]);
                    assert(self.timelines@ =~= old(self).timelines@.update(
                        i as int,
                        self.timelines@[i as int],
                    ));
                }
                true
            },
            None => false,
        }
    }

    /// Replaces the notes found for `kind`. Says whether the feed is open;
    /// for one that is not, nothing changes.
    pub fn set_notes(&mut self, kind: &TimelineKind, notes: Vec<NoteRef>) -> (known: bool)
        requires
            old(self).wf(),
        ensures
            final(self).wf(),
            known == old(self)@.contains_key(kind@),
            final(self)@ == if known {
                old(self)@.insert(kind@, FeedState { notes: notes@, ..old(self)@[kind@] })
            } else {
                old(self)@
            },
    {
        match self.position(kind) {
            Some(i) => {
                proof {
                    lemma_lookup(self.timelines@, i as int);
                }
                let timeline = &mut self.timelines[i];
                timeline.set_notes(notes);
                proof {
                    lemma_update(old(self).timelines@, i as int, self.timelines@[i as int]);
                    assert(self.timelines@ =~= old(self).timelines@.update(
                        i as int,
                        self.timelines@[i as int],
                    ));
                }
                true
            },
            None => false,
        }
    }

    /// One column less shows `kind`. When it was the last, the state of the
    /// feed goes and the result hands out the subscription to close. A feed
    /// that is not open is reported and nothing changes.
    pub fn release(&mut self, kind: &TimelineKind) -> (result: TimelineReleaseResult)
        requires
            old(self).wf(),
        ensures
            final(self).wf(),
            final(self)@ == released(old(self)@, kind@),
            result == release_result(old(self)@, kind@),
    {
        match self.position(kind) {
            Some(i) => {
                proof {
                    lemma_lookup(self.timelines@, i as int);
                }
                if self.timelines[i].subscribers() <= 1 {
                    proof {
                        lemma_remove(self.timelines@, i as int);
                    }
                    let timeline = self.timelines.remove(i);
                    TimelineReleaseResult::Closed(timeline.subscription())
                } else {
                    let timeline = &mut self.timelines[i];
                    timeline.remove_subscriber();
                    proof {
                        lemma_update(old(self).timelines@, i as int, self.timelines@[i as int]);
                        assert(self.timelines@ =~= old(self).timelines@.update(
                            i as int,
                            self.timelines@[i as int],
                        ));
                    }
                    TimelineReleaseResult::Retained
                }
            },
            None => TimelineReleaseResult::Unknown,
        }
    }

    /// Puts a ready-made state into the register as it is, in place of the
    /// state that the feed had, which is handed back. The number of
    /// subscribers is taken from `timeline` and not counted up.
    pub fn insert(&mut self, timeline: Timeline) -> (replaced: Option<Timeline>)
        requires
            old(self).wf(),
        ensures
            final(self).wf(),
            final(self)@ == old(self)@.insert(timeline@.kind, timeline@),
            replaced.is_some() == old(self)@.contains_key(timeline@.kind),
            replaced.is_some() ==> replaced.unwrap()@ == old(self)@[timeline@.kind],
    {
        match self.position(timeline.kind()) {
            Some(i) => {
                proof {
                    lemma_lookup(self.timelines@, i as int);
                    lemma_update(self.timelines@, i as int, timeline);
                }
                let mut timeline = timeline;
                core::mem::swap(&mut self.timelines[i], &mut timeline);
                assert(self.timelines@ =~= old(self).timelines@.update(
                    i as int,
                    self.timelines@[i as int],
                ));
                Some(timeline)
            },
            None => {
                proof {
                    lemma_push(self.timelines@, timeline);
                }
                self.timelines.push(timeline);
                None
            },
        }
    }
}

/// The feeds after `count` columns, one after the other, have opened `kind`.
pub open spec fn opened_times(feeds: Map<FeedId, FeedState>, kind: FeedId, count: nat) -> Map<
    FeedId,
    FeedState,
>
    decreases count,
{
    if count == 0 {
        feeds
    } else {
        opened(opened_times(feeds, kind, (count - 1) as nat), kind)
    }
}

/// How many of those `count` openings asked for a subscription.
pub open spec fn subscriptions_asked(
    feeds: Map<FeedId, FeedState>,
    kind: FeedId,
    count: nat,
) -> nat
    decreases count,
{
    if count == 0 {
        0
    } else {
        let before = opened_times(feeds, kind, (count - 1) as nat);
        let asked: nat = if open_result(before, kind) == TimelineOpenResult::Opened {
            1
        } else {
            0
        };
        subscriptions_asked(feeds, kind, (count - 1) as nat) + asked
    }
}

/// The feeds after `count` columns, one after the other, have given up
/// `kind`.
pub open spec fn released_times(feeds: Map<FeedId, FeedState>, kind: FeedId, count: nat) -> Map<
    FeedId,
    FeedState,
>
    decreases count,
{
    if count == 0 {
        feeds
    } else {
        released(released_times(feeds, kind, (count - 1) as nat), kind)
    }
}

/// How many of those `count` releases asked to close a subscription.
pub open spec fn closes_asked(feeds: Map<FeedId, FeedState>, kind: FeedId, count: nat) -> nat
    decreases count,
{
    if count == 0 {
        0
    } else {
        let before = released_times(feeds, kind, (count - 1) as nat);
        let asked: nat = if release_result(before, kind) is Closed {
            1
        } else {
            0
        };
        closes_asked(feeds, kind, (count - 1) as nat) + asked
    }
}

/// However often a feed is opened in a row, at most one subscription is
/// asked for: exactly one where the feed was not open before, none where it
/// was. Every opening counts as a subscriber, and no other feed changes.
pub proof fn lemma_open_shares_subscription(
    feeds: Map<FeedId, FeedState>,
    kind: FeedId,
    count: nat,
)
    requires
        count >= 1,
    ensures
        subscriptions_asked(feeds, kind, count) == if feeds.contains_key(kind) {
            0nat
        } else {
            1nat
        },
        opened_times(feeds, kind, count).contains_key(kind),
        opened_times(feeds, kind, count)[kind].subscribers == count + if feeds.contains_key(
            kind,
        ) {
            feeds[kind].subscribers
        } else {
            0nat
        },
        opened_times(feeds, kind, count).remove(kind) == feeds.remove(kind),
    decreases count,
{
    let before = opened_times(feeds, kind, (count - 1) as nat);
    if count > 1 {
        lemma_open_shares_subscription(feeds, kind, (count - 1) as nat);
    } else {
        assert(before == feeds);
        assert(subscriptions_asked(feeds, kind, 0) == 0);
    }
    assert(opened(before, kind).remove(kind) =~= before.remove(kind));
}

/// A feed with `subscribers` subscribers stays open, with its subscription,
/// through the first `subscribers - 1` releases, none of which asks to close
/// anything. The release after those removes the feed, asks to close its
/// subscription, and is the only one to ask.
pub proof fn lemma_release_closes_on_last(
    feeds: Map<FeedId, FeedState>,
    kind: FeedId,
    subscribers: nat,
    count: nat,
)
    requires
        feeds.contains_key(kind),
        feeds[kind].subscribers == subscribers,
        subscribers >= 1,
        count <= subscribers,
    ensures
        count < subscribers ==> {
            &&& closes_asked(feeds, kind, count) == 0
            &&& released_times(feeds, kind, count).contains_key(kind)
            &&& released_times(feeds, kind, count)[kind] == FeedState {
                subscribers: (subscribers - count) as nat,
                ..feeds[kind]
            }
        },
        count == subscribers ==> {
            &&& closes_asked(feeds, kind, count) == 1
            &&& release_result(released_times(feeds, kind, (count - 1) as nat), kind)
                == TimelineReleaseResult::Closed(feeds[kind].subscription)
            &&& released_times(feeds, kind, count) == feeds.remove(kind)
        },
        released_times(feeds, kind, count).remove(kind) == feeds.remove(kind),
    decreases count,
{
    if count > 0 {
        lemma_release_closes_on_last(feeds, kind, subscribers, (count - 1) as nat);
        let before = released_times(feeds, kind, (count - 1) as nat);
        assert(released(before, kind).remove(kind) =~= before.remove(kind));
        if count == subscribers {
            assert(released(before, kind) =~= feeds.remove(kind));
        }
        if count == 1 {
            assert(before == feeds);
            assert(closes_asked(feeds, kind, 0) == 0);
        }
    } else {
        assert(feeds[kind] == FeedState { subscribers: subscribers, ..feeds[kind] });
    }
}

/// As many releases as openings bring the register back to where it was:
/// after a feed that was not open has been opened `count` times and given
/// up `count` times, the feeds are the same as before, one subscription was
/// asked for and one was closed.
pub proof fn lemma_open_release_round_trip(feeds: Map<FeedId, FeedState>, kind: FeedId, count: nat)
    requires
        !feeds.contains_key(kind),
        count >= 1,
    ensures
        released_times(opened_times(feeds, kind, count), kind, count) == feeds,
        subscriptions_asked(feeds, kind, count) == 1,
        closes_asked(opened_times(feeds, kind, count), kind, count) == 1,
        forall|fewer: nat|
            fewer < count ==> closes_asked(opened_times(feeds, kind, count), kind, fewer) == 0,
{
    lemma_open_shares_subscription(feeds, kind, count);
    let open = opened_times(feeds, kind, count);
    lemma_release_closes_on_last(open, kind, count, count);
    assert(feeds.remove(kind) =~= feeds);
    assert(open.remove(kind) =~= feeds);
    assert forall|fewer: nat| fewer < count implies closes_asked(open, kind, fewer) == 0 by {
        lemma_release_closes_on_last(open, kind, count, fewer);
    }
}

} // verus!
