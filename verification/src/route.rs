//! Route entries: a guard set bound to one handler.

use crate::guard::{all_accept, check_all, guard_views, Guard, GuardView};
use crate::handler::Handler;
use crate::http::{Method, Request, RequestView, STATUS_NOT_FOUND};
use vstd::prelude::*;

verus! {

/// What a route is, as plain values.
pub struct RouteView {
    pub guards: Seq<GuardView>,
    pub handler: Handler,
    pub deferred: bool,
}

impl RouteView {
    /// Whether the route is eligible for the request: all its guards accept.
    pub open spec fn matches(self, request: RequestView) -> bool {
        all_accept(self.guards, request)
    }
}

/// A guard set bound to a handler.
pub struct Route {
    guards: Vec<Guard>,
    handler: Handler,
    deferred: bool,
}

impl View for Route {
    type V = RouteView;

    closed spec fn view(&self) -> RouteView {
        RouteView {
            guards: guard_views(self.guards@),
            handler: self.handler,
            deferred: self.deferred,
        }
    }
}

/// The views of a sequence of routes, in order.
pub open spec fn route_views(routes: Seq<Route>) -> Seq<RouteView> {
    Seq::new(routes.len(), |i: int| routes[i]@)
}

impl Route {
    /// A route without guards whose handler answers `404`.
    pub fn new() -> (route: Route)
        ensures
            route@ == (RouteView {
                guards: Seq::empty(),
                handler: Handler::Respond(STATUS_NOT_FOUND),
                deferred: false,
            }),
    {
        let route = Route {
            guards: Vec::new(),
            handler: Handler::Respond(STATUS_NOT_FOUND),
            deferred: false,
        };
        assert(guard_views(route.guards@) =~= Seq::empty());
        route
    }

    /// A new route for `GET` requests.
    pub fn get() -> (route: Route)
        ensures
            route@ == (RouteView {
                guards: seq![GuardView::Method(Method::Get)],
                handler: Handler::Respond(STATUS_NOT_FOUND),
                deferred: false,
            }),
    {
        Route::new().method(Method::Get)
    }

    /// A new route for `POST` requests.
    pub fn post() -> (route: Route)
        ensures
            route@ == (RouteView {
                guards: seq![GuardView::Method(Method::Post)],
                handler: Handler::Respond(STATUS_NOT_FOUND),
                deferred: false,
            }),
    {
        Route::new().method(Method::Post)
    }

    /// A new route for `PUT` requests.
    pub fn put() -> (route: Route)
        ensures
            route@ == (RouteView {
                guards: seq![GuardView::Method(Method::Put)],
                handler: Handler::Respond(STATUS_NOT_FOUND),
                deferred: false,
            }),
    {
        Route::new().method(Method::Put)
    }

    /// A new route for `DELETE` requests.
    pub fn delete() -> (route: Route)
        ensures
            route@ == (RouteView {
                guards: seq![GuardView::Method(Method::Delete)],
                handler: Handler::Respond(STATUS_NOT_FOUND),
                deferred: false,
            }),
    {
        Route::new().method(Method::Delete)
    }

    /// The same route, open only to requests with the given method.
    pub fn method(self, method: Method) -> (route: Route)
        ensures
            route@ == (RouteView { guards: self@.guards.push(GuardView::Method(method)), ..self@ }),
    {
        self.guard(Guard::Method(method))
    }

    /// The same route with one more guard.
    pub fn guard(self, guard: Guard) -> (route: Route)
        ensures
            route@ == (RouteView { guards: self@.guards.push(guard@), ..self@ }),
    {
        let mut route = self;
        let ghost before = route.guards@;
        route.guards.push(guard);
        assert(guard_views(route.guards@) =~= guard_views(before).push(guard@));
        route
    }

    /// The same route with `handler` as its handler, called in line.
    pub fn to(self, handler: Handler) -> (route: Route)
        ensures
            route@ == (RouteView { handler, deferred: false, ..self@ }),
    {
        Route { guards: self.guards, handler, deferred: false }
    }

    /// The same route with `handler` as its handler, whose answer is awaited.
    pub fn to_async(self, handler: Handler) -> (route: Route)
        ensures
            route@ == (RouteView { handler, deferred: true, ..self@ }),
    {
        Route { guards: self.guards, handler, deferred: true }
    }

    /// Whether all guards of the route accept `request`.
    pub fn check(&self, request: &Request) -> (pass: bool)
        ensures
            pass == self@.matches(request@),
    {
        check_all(&self.guards, request)
    }

    /// The route's handler.
    pub fn handler(&self) -> (handler: Handler)
        ensures
            handler == self@.handler,
    {
        self.handler
    }

    /// Whether the handler's answer is awaited.
    pub fn is_deferred(&self) -> (deferred: bool)
        ensures
            deferred == self@.deferred,
    {
        self.deferred
    }
}

} // verus!
