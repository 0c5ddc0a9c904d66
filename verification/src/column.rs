//! Columns: each a stack of routes of its own, side by side in an order
//! that the user can change.

use crate::counts::{
    counts_match, lemma_move_keeps_counts, lemma_plain_column_keeps_counts,
    lemma_timeline_column_keeps_counts,
};
use crate::route::{AddColumnRoute, Route, Router};
use crate::timeline::{FeedId, FeedState, Timeline, TimelineKind};
use crate::timeline_cache::{open_result, opened, TimelineCache, TimelineOpenResult};
use vstd::prelude::*;

verus! {

/// One column. Its view is the sequence of the routes of its router.
#[derive(Clone, Debug)]
pub struct Column {
    router: Router<Route>,
}

impl View for Column {
    type V = Seq<Route>;

    closed spec fn view(&self) -> Seq<Route> {
        self.router@
    }
}

impl Column {
    /// The column has a route to show.
    pub open spec fn wf(&self) -> bool {
        self@.len() > 0
    }

    /// A column that has been through `routes` and shows the last of them.
    pub fn new(routes: Vec<Route>) -> (column: Self)
        requires
            routes@.len() > 0,
        ensures
            column.wf(),
            column@ == routes@,
    {
        let router = Router::new(routes);
        Column { router }
    }

    pub fn router(&self) -> (router: &Router<Route>)
        ensures
            router@ == self@,
    {
        &self.router
    }

    /// The router, to navigate with. What is done to it is done to the
    /// column.
    pub fn router_mut(&mut self) -> (router: &mut Router<Route>)
        ensures
            router@ == old(self)@,
            final(self)@ == final(router)@,
    {
        &mut self.router
    }
}

/// The routes of each of `columns`.
pub open spec fn column_views(columns: Seq<Column>) -> Seq<Seq<Route>> {
    columns.map_values(|column: Column| column@)
}

/// The values of `kinds`.
pub open spec fn kind_views(kinds: Seq<TimelineKind>) -> Seq<FeedId> {
    kinds.map_values(|kind: TimelineKind| kind@)
}

/// The routes of a column that has the user choose what it is to show.
pub open spec fn column_picker() -> Seq<Route> {
    seq![Route::AddColumn(AddColumnRoute::Base)]
}

/// Whether `route` shows the feed `feed`.
pub open spec fn shows(route: Route, feed: FeedId) -> bool {
    route matches Route::Timeline(kind) && kind@ == feed
}

/// The feeds that `routes` show, each of them once, in the order in which
/// they first come.
pub open spec fn shown_feeds(routes: Seq<Route>) -> Seq<FeedId>
    decreases routes.len(),
{
    if routes.len() == 0 {
        Seq::empty()
    } else {
        let before = shown_feeds(routes.drop_last());
        match routes.last() {
            Route::Timeline(kind) => if before.contains(kind@) {
                before
            } else {
                before.push(kind@)
            },
            _ => before,
        }
    }
}

/// `shown_feeds` names a feed once if a route shows it, and not at all if
/// none does.
pub proof fn lemma_shown_feeds(routes: Seq<Route>)
    ensures
        shown_feeds(routes).no_duplicates(),
        forall|feed: FeedId|
            shown_feeds(routes).contains(feed) <==> exists|i: int|
                0 <= i < routes.len() && shows(#[trigger] routes[i], feed),
    decreases routes.len(),
{
    if routes.len() > 0 {
        let front = routes.drop_last();
        let before = shown_feeds(front);
        let after = shown_feeds(routes);
        lemma_shown_feeds(front);
        assert forall|feed: FeedId| after.contains(feed) <==> exists|i: int|
            0 <= i < routes.len() && shows(#[trigger] routes[i], feed) by {
            if after.contains(feed) {
                if before.contains(feed) {
                    let i = choose|i: int| 0 <= i < front.len() && shows(#[trigger] front[i], feed);
                    assert(shows(routes[i], feed));
                } else {
                    let j = choose|j: int| 0 <= j < after.len() && after[j] == feed;
                    assert(j == before.len());
                    assert(shows(routes[routes.len() - 1], feed));
                }
            }
            if exists|i: int| 0 <= i < routes.len() && shows(#[trigger] routes[i], feed) {
                let i = choose|i: int| 0 <= i < routes.len() && shows(#[trigger] routes[i], feed);
                if i < front.len() {
                    assert(shows(front[i], feed));
                    assert(before.contains(feed));
                    let j = choose|j: int| 0 <= j < before.len() && before[j] == feed;
                    assert(after[j] == feed);
                } else {
                    if !before.contains(feed) {
                        assert(after[before.len() as int] == feed);
                    } else {
                        let j = choose|j: int| 0 <= j < before.len() && before[j] == feed;
                        assert(after[j] == feed);
                    }
                }
            }
        }
    } else {
        assert forall|feed: FeedId| !shown_feeds(routes).contains(feed) by {}
    }
}

/// A route as it comes from outside: either a route, or the state of a
/// feed, which stands for the route that shows that feed.
#[derive(Debug)]
pub enum IntermediaryRoute {
    Timeline(Timeline),
    Route(Route),
}

impl IntermediaryRoute {
    /// The route that it stands for.
    pub open spec fn route(self) -> Route {
        match self {
            IntermediaryRoute::Timeline(timeline) => Route::Timeline(timeline.spec_kind()),
            IntermediaryRoute::Route(route) => route,
        }
    }
}

/// The routes that `routes` stand for.
pub open spec fn plain_routes(routes: Seq<IntermediaryRoute>) -> Seq<Route> {
    routes.map_values(|route: IntermediaryRoute| route.route())
}

/// The feeds after each feed state among `routes` has been put in, in
/// order, in place of what the feed had before.
pub open spec fn registered(feeds: Map<FeedId, FeedState>, routes: Seq<IntermediaryRoute>) -> Map<
    FeedId,
    FeedState,
>
    decreases routes.len(),
{
    if routes.len() == 0 {
        feeds
    } else {
        let before = registered(feeds, routes.drop_last());
        match routes.last() {
            IntermediaryRoute::Timeline(timeline) => before.insert(timeline@.kind, timeline@),
            IntermediaryRoute::Route(_) => before,
        }
    }
}

/// The columns with which there is a first: `columns` itself, or, where it
/// is empty, one column that has the user choose what it is to show.
pub open spec fn first_columns(columns: Seq<Seq<Route>>) -> Seq<Seq<Route>> {
    if columns.len() == 0 {
        seq![column_picker()]
    } else {
        columns
    }
}

proof fn lemma_column_views_update(columns: Seq<Column>, i: int)
    requires
        0 <= i < columns.len(),
    ensures
        forall|column: Column| #[trigger]
            column_views(columns.update(i, column)) == column_views(columns).update(i, column@),
{
    assert forall|column: Column| #[trigger]
        column_views(columns.update(i, column)) == column_views(columns).update(
            i,
            column@,
        ) by {
        assert(column_views(columns.update(i, column)) =~= column_views(columns).update(
            i,
            column@,
        ));
    }
}

/// The columns after the one at the place `index` has been removed: where
/// it was the only one, a column that has the user choose what it is to
/// show stands in its place.
pub open spec fn deleted(columns: Seq<Seq<Route>>, index: int) -> Seq<Seq<Route>> {
    if columns.len() == 1 {
        seq![column_picker()]
    } else {
        columns.remove(index)
    }
}

/// What the user asks to be done to the columns.
#[derive(Clone, Copy, Debug, PartialEq, Eq, Structural)]
pub enum ColumnsAction {
    /// Exchange the columns at the two places.
    Switch(usize, usize),
    /// Remove the column at the place.
    Remove(usize),
}

/// Whether `kinds` holds the feed of `kind`.
fn contains_kind(kinds: &Vec<TimelineKind>, kind: &TimelineKind) -> (found: bool)
    ensures
        found == kind_views(kinds@).contains(kind@),
{
    let mut i: usize = 0;
    while i < kinds.len()
        invariant
            i <= kinds@.len(),
            forall|j: int| 0 <= j < i ==> kind_views(kinds@)[j] != kind@,
        decreases kinds@.len() - i,
    {
        if kinds[i] == *kind {
            assert(kind_views(kinds@)[i as int] == kind@);
            return true;
        }
        i += 1;
    }
    false
}

/// The columns from left to right, and the place of the one that the keys
/// act on. Its view is the sequence of the columns' routes.
#[derive(Debug)]
pub struct Columns {
    /// Columns are simply routers into settings, timelines, etc
    columns: Vec<Column>,
    /// The selected column for key navigation
    selected: usize,
}

impl View for Columns {
    type V = Seq<Seq<Route>>;

    closed spec fn view(&self) -> Seq<Seq<Route>> {
        column_views(self.columns@)
    }
}

impl Default for Columns {
    fn default() -> (columns: Self)
        ensures
            columns.wf(),
            columns@ == Seq::<Seq<Route>>::empty(),
            columns.selection() == 0,
    {
        let columns = Columns { columns: Vec::new(), selected: 0 };
        assert(columns@ =~= Seq::<Seq<Route>>::empty());
        columns
    }
}

impl Columns {
    /// The place of the selected column. After a column was removed it may
    /// lie behind the last column.
    pub closed spec fn selection(&self) -> nat {
        self.selected as nat
    }

    /// Every column has a route to show.
    pub open spec fn wf(&self) -> bool {
        forall|i: int| 0 <= i < self@.len() ==> (#[trigger] self@[i]).len() > 0
    }

    /// No columns, the selection at the first place.
    pub fn new() -> (columns: Self)
        ensures
            columns.wf(),
            columns@ == Seq::<Seq<Route>>::empty(),
            columns.selection() == 0,
    {
        Columns::default()
    }

    /// Adds, at the right, a column that shows the feed `kind`, and opens
    /// the feed in `timeline_cache`. The result is that of the opening.
    pub fn add_new_timeline_column(
        &mut self,
        timeline_cache: &mut TimelineCache,
        kind: &TimelineKind,
    ) -> (result: TimelineOpenResult)
        requires
            old(self).wf(),
            old(timeline_cache).wf(),
            old(timeline_cache)@.contains_key(kind@) ==> old(timeline_cache)@[kind@].subscribers
                < usize::MAX,
        ensures
            final(self).wf(),
            final(self)@ == old(self)@.push(seq![Route::Timeline(*kind)]),
            final(self).selection() == old(self).selection(),
            final(timeline_cache).wf(),
            final(timeline_cache)@ == opened(old(timeline_cache)@, kind@),
            result == open_result(old(timeline_cache)@, kind@),
            counts_match(old(self)@, old(timeline_cache)@) ==> counts_match(
                final(self)@,
                final(timeline_cache)@,
            ),
    {
        proof {
            if counts_match(self@, timeline_cache@) {
                lemma_timeline_column_keeps_counts(self@, timeline_cache@, Route::Timeline(*kind));
            }
        }
        let mut routes: Vec<Route> = Vec::new();
        routes.push(Route::timeline(kind.clone()));
        self.add_column(Column::new(routes));
        timeline_cache.open(kind)
    }

    /// Adds, at the right, a column that has the user choose what it is to
    /// show.
    pub fn new_column_picker(&mut self)
        requires
            old(self).wf(),
        ensures
            final(self).wf(),
            final(self)@ == old(self)@.push(column_picker()),
            final(self).selection() == old(self).selection(),
            forall|feeds: Map<FeedId, FeedState>| #[trigger]
                counts_match(old(self)@, feeds) ==> counts_match(final(self)@, feeds),
    {
        proof {
            assert forall|feeds: Map<FeedId, FeedState>| #[trigger]
                counts_match(self@, feeds) implies counts_match(
                self@.push(column_picker()),
                feeds,
            ) by {
                lemma_plain_column_keeps_counts(self@, feeds, column_picker(), 0);
            }
        }
        let mut routes: Vec<Route> = Vec::new();
        routes.push(Route::AddColumn(AddColumnRoute::Base));
        self.add_column(Column::new(routes));
    }

    /// Adds `column` at the place `index`; the columns from there on move
    /// one place to the right.
    pub fn add_column_at(&mut self, column: Column, index: u32)
        requires
            old(self).wf(),
            column.wf(),
            index <= old(self)@.len(),
        ensures
            final(self).wf(),
            final(self)@ == old(self)@.insert(index as int, column@),
            final(self).selection() == old(self).selection(),
    {
        self.columns.insert(index as usize, column);
        assert(self@ =~= old(self)@.insert(index as int, column@));
    }

    /// Adds `column` at the right.
    pub fn add_column(&mut self, column: Column)
        requires
            old(self).wf(),
            column.wf(),
        ensures
            final(self).wf(),
            final(self)@ == old(self)@.push(column@),
            final(self).selection() == old(self).selection(),
    {
        self.columns.push(column);
        assert(self@ =~= old(self)@.push(column@));
    }

    /// Puts the feed states among `intermediary_routes` into
    /// `timeline_cache` as they are, each in place of what its feed had
    /// before, and adds, at the right, a column that has been through the
    /// routes that `intermediary_routes` stand for. No feed counts a
    /// subscriber more for it.
    pub fn insert_intermediary_routes(
        &mut self,
        timeline_cache: &mut TimelineCache,
        intermediary_routes: Vec<IntermediaryRoute>,
    )
        requires
            old(self).wf(),
            old(timeline_cache).wf(),
            intermediary_routes@.len() > 0,
        ensures
            final(self).wf(),
            final(self)@ == old(self)@.push(plain_routes(intermediary_routes@)),
            final(self).selection() == old(self).selection(),
            final(timeline_cache).wf(),
            final(timeline_cache)@ == registered(old(timeline_cache)@, intermediary_routes@),
    {
        let mut routes: Vec<Route> = Vec::new();
        for intermediary in it: intermediary_routes
            invariant
                timeline_cache.wf(),
                routes@ == plain_routes(it.seq().take(it.index() as int)),
                timeline_cache@ == registered(
                    old(timeline_cache)@,
                    it.seq().take(it.index() as int),
                ),
        {
            proof {
                let done = it.seq().take(it.index() + 1);
                assert(done.drop_last() =~= it.seq().take(it.index() as int));
                assert(done.last() == intermediary);
                assert(plain_routes(done) =~= plain_routes(done.drop_last()).push(
                    intermediary.route(),
                ));
            }
            let route = match intermediary {
                IntermediaryRoute::Timeline(timeline) => {
                    proof {
                        timeline.lemma_kind();
                    }
                    let route = Route::timeline(timeline.kind().clone());
                    timeline_cache.insert(timeline);
                    route
                },
                IntermediaryRoute::Route(route) => route,
            };
            routes.push(route);
        }
        proof {
            assert(intermediary_routes@.take(intermediary_routes@.len() as int)
                =~= intermediary_routes@);
        }
        self.add_column(Column::new(routes));
    }

    /// The columns themselves, to change at will. What is done to them is
    /// done to `self`.
    pub fn columns_mut(&mut self) -> (columns: &mut Vec<Column>)
        ensures
            column_views(columns@) == old(self)@,
            final(self)@ == column_views(final(columns)@),
            final(self).selection() == old(self).selection(),
    {
        &mut self.columns
    }

    pub fn num_columns(&self) -> (count: usize)
        ensures
            count == self@.len(),
    {
        self.columns.len()
    }

    /// The router of the first column. Where there is no column, one that
    /// has the user choose what it is to show is added first.
    pub fn get_first_router(&mut self) -> (router: &mut Router<Route>)
        requires
            old(self).wf(),
        ensures
            router@ == first_columns(old(self)@)[0],
            router.wf(),
            final(self)@ == first_columns(old(self)@).update(0, final(router)@),
            final(self)@.len() >= 1,
            final(router).wf() ==> final(self).wf(),
            final(self).selection() == old(self).selection(),
    {
        if self.columns.is_empty() {
            self.new_column_picker();
        }
        assert(self@.len() > 0);
        assert(self@[0].len() > 0);
        proof {
            lemma_column_views_update(self.columns@, 0);
        }
        let column = &mut self.columns[0];
        column.router_mut()
    }

    /// The column at the place `ind`.
    pub fn column(&self, ind: usize) -> (column: &Column)
        requires
            ind < self@.len(),
        ensures
            column@ == self@[ind as int],
    {
        &self.columns[ind]
    }

    pub fn columns(&self) -> (columns: &[Column])
        ensures
            column_views(columns@) == self@,
    {
        self.columns.as_slice()
    }

    /// The selected column. The selection must be the place of a column.
    pub fn selected(&mut self) -> (column: &mut Column)
        requires
            old(self).selection() < old(self)@.len(),
        ensures
            column@ == old(self)@[old(self).selection() as int],
            final(self)@ == old(self)@.update(old(self).selection() as int, final(column)@),
            old(self).wf() && final(column).wf() ==> final(self).wf(),
            final(self).selection() == old(self).selection(),
    {
        proof {
            lemma_column_views_update(self.columns@, self.selected as int);
        }
        &mut self.columns[self.selected]
    }

    /// The column at the place `ind`, to change.
    pub fn column_mut(&mut self, ind: usize) -> (column: &mut Column)
        requires
            ind < old(self)@.len(),
        ensures
            column@ == old(self)@[ind as int],
            final(self)@ == old(self)@.update(ind as int, final(column)@),
            old(self).wf() && final(column).wf() ==> final(self).wf(),
            final(self).selection() == old(self).selection(),
    {
        proof {
            lemma_column_views_update(self.columns@, ind as int);
        }
        &mut self.columns[ind]
    }

    /// The place of the selected column.
    pub fn selected_index(&self) -> (place: usize)
        ensures
            place == self.selection(),
    {
        self.selected
    }

    /// Reserved for columns that are laid out in rows: nothing changes.
    pub fn select_down(&mut self)
        ensures
            *final(self) == *old(self),
    {
    }

    /// Reserved for columns that are laid out in rows: nothing changes.
    pub fn select_up(&mut self)
        ensures
            *final(self) == *old(self),
    {
    }

    /// Moves the selection one place to the left, unless it is at the
    /// first place.
    pub fn select_left(&mut self)
        requires
            old(self).wf(),
        ensures
            final(self).wf(),
            final(self)@ == old(self)@,
            final(self).selection() == if old(self).selection() > 0 {
                old(self).selection() - 1
            } else {
                0
            },
            old(self).selection() < old(self)@.len() ==> final(self).selection()
                < final(self)@.len(),
    {
        if self.selected == 0 {
            return;
        }
        self.selected -= 1;
        assert(self@ == old(self)@);
    }

    /// Moves the selection one place to the right, unless no column is
    /// there.
    pub fn select_right(&mut self)
        requires
            old(self).wf(),
        ensures
            final(self).wf(),
            final(self)@ == old(self)@,
            final(self).selection() == if old(self).selection() + 1 < old(self)@.len() {
                old(self).selection() + 1
            } else {
                old(self).selection()
            },
            old(self).selection() < old(self)@.len() ==> final(self).selection()
                < final(self)@.len(),
    {
        if self.selected >= self.columns.len() || self.selected + 1 >= self.columns.len() {
            return;
        }
        self.selected += 1;
    }

    /// Removes the column at the place `index` and hands out the feeds that
    /// its routes showed, each of them once, in the order in which they
    /// first came. The caller releases each of them in the register of open
    /// feeds; nothing is released here. Where the column was the only one, a
    /// column that has the user choose what it is to show takes its place.
    /// The selection stays where it was.
    #[must_use]
    pub fn delete_column(&mut self, index: usize) -> (kinds: Vec<TimelineKind>)
        requires
            old(self).wf(),
            index < old(self)@.len(),
        ensures
            final(self).wf(),
            kind_views(kinds@) == shown_feeds(old(self)@[index as int]),
            final(self)@ == deleted(old(self)@, index as int),
            final(self)@.len() >= 1,
            final(self).selection() == old(self).selection(),
    {
        let mut kinds_to_release: Vec<TimelineKind> = Vec::new();
        let routes = self.columns[index].router().routes();
        let mut i: usize = 0;
        while i < routes.len()
            invariant
                i <= routes@.len(),
                kind_views(kinds_to_release@) == shown_feeds(routes@.take(i as int)),
            decreases routes@.len() - i,
        {
            proof {
                assert(routes@.take(i + 1).drop_last() =~= routes@.take(i as int));
                assert(routes@.take(i + 1).last() == routes@[i as int]);
            }
            if let Route::Timeline(kind) = &routes[i] {
                if !contains_kind(&kinds_to_release, kind) {
                    kinds_to_release.push(kind.clone());
                    assert(kind_views(kinds_to_release@) =~= shown_feeds(routes@.take(i as int)).push(
                        kind@,
                    ));
                }
            }
            i += 1;
        }
        proof {
            assert(routes@.take(routes@.len() as int) =~= routes@);
        }
        self.columns.remove(index);
        assert(self@ =~= old(self)@.remove(index as int));
        if self.columns.is_empty() {
            self.new_column_picker();
            assert(self@ =~= seq![column_picker()]);
        }
        kinds_to_release
    }

    /// Exchanges the columns at the two places. Nothing changes where the
    /// places are the same or one of them holds no column.
    pub fn move_col(&mut self, from_index: usize, to_index: usize)
        ensures
            final(self)@ == if from_index == to_index || from_index >= old(self)@.len()
                || to_index >= old(self)@.len() {
                old(self)@
            } else {
                old(self)@.update(from_index as int, old(self)@[to_index as int]).update(
                    to_index as int,
                    old(self)@[from_index as int],
                )
            },
            final(self).selection() == old(self).selection(),
            old(self).wf() ==> final(self).wf(),
            forall|feeds: Map<FeedId, FeedState>| #[trigger]
                counts_match(old(self)@, feeds) ==> counts_match(final(self)@, feeds),
    {
        proof {
            if from_index < self@.len() && to_index < self@.len() {
                assert forall|feeds: Map<FeedId, FeedState>| #[trigger]
                    counts_match(self@, feeds) implies counts_match(
                    self@.update(from_index as int, self@[to_index as int]).update(
                        to_index as int,
                        self@[from_index as int],
                    ),
                    feeds,
                ) by {
                    lemma_move_keeps_counts(self@, feeds, from_index as int, to_index as int);
                }
            }
        }
        if from_index == to_index || from_index >= self.columns.len() || to_index
            >= self.columns.len() {
            return;
        }
        self.columns.swap(from_index, to_index);
        assert(self@ =~= old(self)@.update(from_index as int, old(self)@[to_index as int]).update(
            to_index as int,
            old(self)@[from_index as int],
        ));
    }
}

/// `swap` of std's slices, `<[T]>::swap`, for which vstd has no
/// specification. As its documentation says, the items at the places `a`
/// and `b` change places and nothing else changes; it panics where one of
/// the places holds no item, so both must hold one.
pub assume_specification<T>[ <[T]>::swap ](slice: &mut [T], a: usize, b: usize)
    requires
        a < old(slice)@.len(),
        b < old(slice)@.len(),
    ensures
        final(slice)@ == old(slice)@.update(a as int, old(slice)@[b as int]).update(
            b as int,
            old(slice)@[a as int],
        ),
;

} // verus!
