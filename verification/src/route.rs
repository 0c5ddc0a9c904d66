//! Where a column can be, and the stack of places it has been.

use crate::timeline::TimelineKind;
use vstd::prelude::*;

verus! {

/// The steps of choosing what a new column is to show.
#[derive(Clone, Copy, Debug, PartialEq, Eq, Structural)]
pub enum AddColumnRoute {
    Base,
    UndecidedNotification,
    ExternalNotification,
    Hashtag,
}

/// One place that a column can show.
#[derive(Clone, Debug, PartialEq, Eq)]
pub enum Route {
    /// A feed.
    Timeline(TimelineKind),
    /// The choice of what the column is to show.
    AddColumn(AddColumnRoute),
    Accounts,
    Relays,
    Settings,
}

impl Route {
    /// The route that shows the feed `kind`.
    pub fn timeline(kind: TimelineKind) -> (route: Self)
        ensures
            route == Route::Timeline(kind),
    {
        Route::Timeline(kind)
    }

    /// The feed that the route shows, if it shows one.
    pub fn timeline_kind(&self) -> (kind: Option<&TimelineKind>)
        ensures
            match *self {
                Route::Timeline(shown) => kind == Some(&shown),
                _ => kind.is_none(),
            },
    {
        match self {
            Route::Timeline(kind) => Some(kind),
            _ => None,
        }
    }
}

/// The places a column has been, the oldest first; the last is the one it
/// shows. Its view is that sequence. A router that was made with a route
/// never loses its last one.
#[derive(Clone, Debug)]
pub struct Router<R> {
    routes: Vec<R>,
}

impl<R> View for Router<R> {
    type V = Seq<R>;

    closed spec fn view(&self) -> Seq<R> {
        self.routes@
    }
}

impl<R> Router<R> {
    /// There is a route to show.
    pub open spec fn wf(&self) -> bool {
        self@.len() > 0
    }

    /// A router that has been through `routes` and shows the last of them.
    pub fn new(routes: Vec<R>) -> (router: Self)
        requires
            routes@.len() > 0,
        ensures
            router.wf(),
            router@ == routes@,
    {
        Router { routes }
    }

    pub fn routes(&self) -> (routes: &Vec<R>)
        ensures
            routes@ == self@,
    {
        &self.routes
    }

    /// The route that is shown.
    pub fn top(&self) -> (route: &R)
        requires
            self.wf(),
        ensures
            *route == self@.last(),
    {
        &self.routes[self.routes.len() - 1]
    }

    /// Goes on to `route`.
    pub fn route_to(&mut self, route: R)
        ensures
            final(self)@ == old(self)@.push(route),
            final(self).wf(),
    {
        self.routes.push(route);
    }

    /// Goes back one route and hands out the route that was left. Where
    /// there is nowhere to go back to, nothing changes.
    pub fn pop(&mut self) -> (left: Option<R>)
        ensures
            old(self)@.len() > 1 ==> left == Some(old(self)@.last()) && final(self)@
                == old(self)@.drop_last(),
            old(self)@.len() <= 1 ==> left.is_none() && final(self)@ == old(self)@,
            old(self).wf() ==> final(self).wf(),
    {
        if self.routes.len() <= 1 {
            return None;
        }
        self.routes.pop()
    }

    /// Shows `route` in place of the route that was shown, which is handed
    /// out.
    pub fn replace(&mut self, route: R) -> (replaced: R)
        requires
            old(self).wf(),
        ensures
            replaced == old(self)@.last(),
            final(self)@ == old(self)@.drop_last().push(route),
            final(self).wf(),
    {
        let last = self.routes.len() - 1;
        let mut route = route;
        core::mem::swap(&mut self.routes[last], &mut route);
        assert(self.routes@ =~= old(self).routes@.drop_last().push(self.routes@[last as int]));
        route
    }
}

} // verus!
