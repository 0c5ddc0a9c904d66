//! How the columns and the register of open feeds go together: a feed
//! counts one subscriber for each column that shows it, and is open for as
//! long as a column shows it. The register cannot see the columns, so it is
//! the caller who keeps the two in step. The laws here say which calls do.

use crate::column::{column_picker, deleted, shown_feeds, shows};
use crate::route::Route;
use crate::timeline::{FeedId, FeedState};
use crate::timeline_cache::{opened, released};
use vstd::prelude::*;

verus! {

/// Whether one of `routes` shows `feed`.
pub open spec fn column_shows(routes: Seq<Route>, feed: FeedId) -> bool {
    exists|i: int| 0 <= i < routes.len() && shows(#[trigger] routes[i], feed)
}

/// What a column with `routes` adds to the subscribers of `feed`: one if it
/// shows the feed, however often, and nothing if it does not.
pub open spec fn column_share(routes: Seq<Route>, feed: FeedId) -> nat {
    if column_shows(routes, feed) {
        1
    } else {
        0
    }
}

/// The number of `columns` that show `feed`.
pub open spec fn columns_showing(columns: Seq<Seq<Route>>, feed: FeedId) -> nat
    decreases columns.len(),
{
    if columns.len() == 0 {
        0
    } else {
        columns_showing(columns.drop_last(), feed) + column_share(columns.last(), feed)
    }
}

/// The subscribers that `feeds` counts for `feed`: none for a feed that is
/// not open.
pub open spec fn subscribers_of(feeds: Map<FeedId, FeedState>, feed: FeedId) -> nat {
    if feeds.contains_key(feed) {
        feeds[feed].subscribers
    } else {
        0
    }
}

/// Every feed counts as many subscribers as columns show it, and no feed is
/// open that no column shows.
pub open spec fn counts_match(columns: Seq<Seq<Route>>, feeds: Map<FeedId, FeedState>) -> bool {
    forall|feed: FeedId|
        {
            &&& #[trigger] subscribers_of(feeds, feed) == columns_showing(columns, feed)
            &&& feeds.contains_key(feed) ==> feeds[feed].subscribers >= 1
        }
}

/// The feeds after each of `kinds` has been released, in order.
pub open spec fn released_all(feeds: Map<FeedId, FeedState>, kinds: Seq<FeedId>) -> Map<
    FeedId,
    FeedState,
>
    decreases kinds.len(),
{
    if kinds.len() == 0 {
        feeds
    } else {
        released(released_all(feeds, kinds.drop_last()), kinds.last())
    }
}

proof fn lemma_showing_push(columns: Seq<Seq<Route>>, routes: Seq<Route>, feed: FeedId)
    ensures
        columns_showing(columns.push(routes), feed) == columns_showing(columns, feed)
            + column_share(routes, feed),
{
    assert(columns.push(routes).drop_last() =~= columns);
}

proof fn lemma_showing_update(columns: Seq<Seq<Route>>, i: int, routes: Seq<Route>, feed: FeedId)
    requires
        0 <= i < columns.len(),
    ensures
        columns_showing(columns.update(i, routes), feed) + column_share(columns[i], feed)
            == columns_showing(columns, feed) + column_share(routes, feed),
    decreases columns.len(),
{
    let updated = columns.update(i, routes);
    if i == columns.len() - 1 {
        assert(updated.drop_last() =~= columns.drop_last());
    } else {
        assert(updated.drop_last() =~= columns.drop_last().update(i, routes));
        lemma_showing_update(columns.drop_last(), i, routes, feed);
    }
}

proof fn lemma_showing_remove(columns: Seq<Seq<Route>>, i: int, feed: FeedId)
    requires
        0 <= i < columns.len(),
    ensures
        columns_showing(columns.remove(i), feed) + column_share(columns[i], feed)
            == columns_showing(columns, feed),
    decreases columns.len(),
{
    if i == columns.len() - 1 {
        assert(columns.remove(i) =~= columns.drop_last());
    } else {
        assert(columns.remove(i).drop_last() =~= columns.drop_last().remove(i));
        assert(columns.remove(i).last() == columns.last());
        lemma_showing_remove(columns.drop_last(), i, feed);
    }
}

proof fn lemma_showing_insert(columns: Seq<Seq<Route>>, i: int, routes: Seq<Route>, feed: FeedId)
    requires
        0 <= i <= columns.len(),
    ensures
        columns_showing(columns.insert(i, routes), feed) == columns_showing(columns, feed)
            + column_share(routes, feed),
    decreases columns.len(),
{
    if i == columns.len() {
        assert(columns.insert(i, routes) =~= columns.push(routes));
        lemma_showing_push(columns, routes, feed);
    } else {
        assert(columns.insert(i, routes).drop_last() =~= columns.drop_last().insert(i, routes));
        assert(columns.insert(i, routes).last() == columns.last());
        lemma_showing_insert(columns.drop_last(), i, routes, feed);
    }
}

proof fn lemma_picker_shows_nothing(feed: FeedId)
    ensures
        !column_shows(column_picker(), feed),
        columns_showing(seq![column_picker()], feed) == 0,
{
    assert(seq![column_picker()].drop_last() =~= Seq::<Seq<Route>>::empty());
    assert(seq![column_picker()].last() == column_picker());
    assert(columns_showing(Seq::<Seq<Route>>::empty(), feed) == 0);
}

proof fn lemma_released_all(feeds: Map<FeedId, FeedState>, kinds: Seq<FeedId>, feed: FeedId)
    requires
        kinds.no_duplicates(),
    ensures
        kinds.contains(feed) ==> {
            let after = released_all(feeds, kinds);
            &&& after.contains_key(feed) <==> feeds.contains_key(feed) && feeds[feed].subscribers
                >= 2
            &&& after.contains_key(feed) ==> after[feed] == FeedState {
                subscribers: (feeds[feed].subscribers - 1) as nat,
                ..feeds[feed]
            }
        },
        !kinds.contains(feed) ==> {
            let after = released_all(feeds, kinds);
            &&& after.contains_key(feed) <==> feeds.contains_key(feed)
            &&& after.contains_key(feed) ==> after[feed] == feeds[feed]
        },
    decreases kinds.len(),
{
    if kinds.len() > 0 {
        let front = kinds.drop_last();
        let last = kinds.last();
        assert(front.no_duplicates());
        assert(!front.contains(last)) by {
            if front.contains(last) {
                let j = choose|j: int| 0 <= j < front.len() && front[j] == last;
                assert(kinds[j] == kinds[kinds.len() - 1]);
            }
        }
        assert(kinds.contains(feed) <==> front.contains(feed) || feed == last) by {
            if kinds.contains(feed) {
                let j = choose|j: int| 0 <= j < kinds.len() && kinds[j] == feed;
                if j < front.len() {
                    assert(front[j] == feed);
                }
            }
            if front.contains(feed) {
                let j = choose|j: int| 0 <= j < front.len() && front[j] == feed;
                assert(kinds[j] == feed);
            }
            if feed == last {
                assert(kinds[kinds.len() - 1] == feed);
            }
        }
        lemma_released_all(feeds, front, feed);
    }
}

/// With no column and no open feed the counts are in step.
pub proof fn lemma_nothing_open_matches()
    ensures
        counts_match(Seq::<Seq<Route>>::empty(), Map::<FeedId, FeedState>::empty()),
{
}

/// A new column that shows one feed, together with the opening of that
/// feed, keeps the counts in step.
pub proof fn lemma_timeline_column_keeps_counts(
    columns: Seq<Seq<Route>>,
    feeds: Map<FeedId, FeedState>,
    route: Route,
)
    requires
        counts_match(columns, feeds),
        route is Timeline,
    ensures
        counts_match(columns.push(seq![route]), opened(feeds, route->Timeline_0@)),
{
    let kind = route->Timeline_0@;
    let after = opened(feeds, kind);
    assert forall|feed: FeedId|
        {
            &&& #[trigger] subscribers_of(after, feed) == columns_showing(
                columns.push(seq![route]),
                feed,
            )
            &&& after.contains_key(feed) ==> after[feed].subscribers >= 1
        } by {
        lemma_showing_push(columns, seq![route], feed);
        assert(subscribers_of(feeds, feed) == columns_showing(columns, feed));
        if feed == kind {
            assert(shows(seq![route][0], feed));
        }
    }
}

/// A new column that shows no feed keeps the counts in step.
pub proof fn lemma_plain_column_keeps_counts(
    columns: Seq<Seq<Route>>,
    feeds: Map<FeedId, FeedState>,
    routes: Seq<Route>,
    index: int,
)
    requires
        counts_match(columns, feeds),
        forall|i: int| 0 <= i < routes.len() ==> !(#[trigger] routes[i] is Timeline),
        0 <= index <= columns.len(),
    ensures
        counts_match(columns.insert(index, routes), feeds),
        counts_match(columns.push(routes), feeds),
{
    assert(columns.insert(columns.len() as int, routes) =~= columns.push(routes));
    assert forall|feed: FeedId|
        {
            &&& #[trigger] subscribers_of(feeds, feed) == columns_showing(
                columns.insert(index, routes),
                feed,
            )
            &&& subscribers_of(feeds, feed) == columns_showing(columns.push(routes), feed)
        } by {
        lemma_showing_insert(columns, index, routes, feed);
        lemma_showing_push(columns, routes, feed);
        assert(subscribers_of(feeds, feed) == columns_showing(columns, feed));
    }
    assert forall|feed: FeedId| feeds.contains_key(feed) implies feeds[feed].subscribers >= 1 by {
        assert(subscribers_of(feeds, feed) == columns_showing(columns, feed));
    }
}

/// The removal of a column, together with the release of each feed that the
/// removal hands out, keeps the counts in step.
pub proof fn lemma_delete_and_release_keeps_counts(
    columns: Seq<Seq<Route>>,
    feeds: Map<FeedId, FeedState>,
    index: int,
)
    requires
        counts_match(columns, feeds),
        0 <= index < columns.len(),
    ensures
        counts_match(deleted(columns, index), released_all(feeds, shown_feeds(columns[index]))),
{
    let kinds = shown_feeds(columns[index]);
    let after = released_all(feeds, kinds);
    crate::column::lemma_shown_feeds(columns[index]);
    assert forall|feed: FeedId|
        {
            &&& #[trigger] subscribers_of(after, feed) == columns_showing(
                deleted(columns, index),
                feed,
            )
            &&& after.contains_key(feed) ==> after[feed].subscribers >= 1
        } by {
        lemma_released_all(feeds, kinds, feed);
        lemma_showing_remove(columns, index, feed);
        assert(subscribers_of(feeds, feed) == columns_showing(columns, feed));
        assert(kinds.contains(feed) <==> column_shows(columns[index], feed));
        if columns.len() == 1 {
            lemma_picker_shows_nothing(feed);
            assert(columns.remove(index) =~= Seq::<Seq<Route>>::empty());
        }
    }
}

/// The exchange of two columns keeps the counts in step.
pub proof fn lemma_move_keeps_counts(
    columns: Seq<Seq<Route>>,
    feeds: Map<FeedId, FeedState>,
    from: int,
    to: int,
)
    requires
        counts_match(columns, feeds),
        0 <= from < columns.len(),
        0 <= to < columns.len(),
    ensures
        counts_match(columns.update(from, columns[to]).update(to, columns[from]), feeds),
{
    let moved = columns.update(from, columns[to]).update(to, columns[from]);
    assert forall|feed: FeedId|
        {
            &&& #[trigger] subscribers_of(feeds, feed) == columns_showing(moved, feed)
            &&& feeds.contains_key(feed) ==> feeds[feed].subscribers >= 1
        } by {
        let half = columns.update(from, columns[to]);
        lemma_showing_update(columns, from, columns[to], feed);
        lemma_showing_update(half, to, columns[from], feed);
        assert(half[to] == columns[to]);
        assert(subscribers_of(feeds, feed) == columns_showing(columns, feed));
    }
    assert(counts_match(moved, feeds));
}

/// A column that goes on to `route` keeps the counts in step if the feed of
/// the route is opened, unless the column shows that feed already or the
/// route shows no feed: then nothing is to be opened.
pub proof fn lemma_route_to_keeps_counts(
    columns: Seq<Seq<Route>>,
    feeds: Map<FeedId, FeedState>,
    index: int,
    route: Route,
)
    requires
        counts_match(columns, feeds),
        0 <= index < columns.len(),
    ensures
        counts_match(
            columns.update(index, columns[index].push(route)),
            if route is Timeline && !column_shows(columns[index], route->Timeline_0@) {
                opened(feeds, route->Timeline_0@)
            } else {
                feeds
            },
        ),
{
    let routes = columns[index];
    let longer = routes.push(route);
    let after = if route is Timeline && !column_shows(routes, route->Timeline_0@) {
        opened(feeds, route->Timeline_0@)
    } else {
        feeds
    };
    assert forall|feed: FeedId|
        {
            &&& #[trigger] subscribers_of(after, feed) == columns_showing(
                columns.update(index, longer),
                feed,
            )
            &&& after.contains_key(feed) ==> after[feed].subscribers >= 1
        } by {
        lemma_showing_update(columns, index, longer, feed);
        assert(subscribers_of(feeds, feed) == columns_showing(columns, feed));
        assert(column_shows(longer, feed) <==> column_shows(routes, feed) || shows(route, feed))
            by {
            if column_shows(routes, feed) {
                let i = choose|i: int| 0 <= i < routes.len() && shows(#[trigger] routes[i], feed);
                assert(shows(longer[i], feed));
            }
            if shows(route, feed) {
                assert(shows(longer[routes.len() as int], feed));
            }
            if column_shows(longer, feed) {
                let i = choose|i: int| 0 <= i < longer.len() && shows(#[trigger] longer[i], feed);
                if i < routes.len() {
                    assert(shows(routes[i], feed));
                }
            }
        }
    }
}

} // verus!
