//! The compiled dispatcher, the slot that holds it, and the front-end that
//! middleware wraps.

use crate::data::Extensions;
use crate::handler::Handler;
use crate::http::{
    bare_response, Request, RequestView, Response, ResponseView, STATUS_METHOD_NOT_ALLOWED,
};
use crate::middleware::{middleware_views, Middleware, MiddlewareView};
use crate::guard::GuardView;
use crate::http::Method;
use crate::route::{route_views, Route, RouteView};
use vstd::prelude::*;

verus! {

/// The index of the first route, from `from` on, whose guards all accept
/// the request.
pub open spec fn first_match(routes: Seq<RouteView>, request: RequestView, from: int) -> Option<
    int,
>
    decreases routes.len() - from,
{
    if from < 0 || from >= routes.len() {
        None
    } else if routes[from].matches(request) {
        Some(from)
    } else {
        first_match(routes, request, from + 1)
    }
}

/// The first match is a match, and no route before it matches; where there
/// is none, no route matches.
pub proof fn lemma_first_match(routes: Seq<RouteView>, request: RequestView, from: int)
    requires
        0 <= from <= routes.len(),
    ensures
        match first_match(routes, request, from) {
            Some(i) => from <= i < routes.len() && routes[i].matches(request) && forall|j: int|
                from <= j < i ==> !(#[trigger] routes[j]).matches(request),
            None => forall|j: int|
                from <= j < routes.len() ==> !(#[trigger] routes[j]).matches(request),
        },
    decreases routes.len() - from,
{
    if from < routes.len() && !routes[from].matches(request) {
        lemma_first_match(routes, request, from + 1);
    }
}

/// The scoped data of a resource, as plain values.
pub open spec fn data_view(data: Option<Extensions>) -> Option<Map<u64, Seq<char>>> {
    match data {
        Some(extensions) => Some(extensions@),
        None => None,
    }
}

/// What a compiled dispatcher is, as plain values.
pub struct FactoryView {
    pub routes: Seq<RouteView>,
    pub data: Option<Map<u64, Seq<char>>>,
    pub default: Option<Handler>,
}

impl FactoryView {
    /// The data that route handlers extract from: the resource's own where
    /// it has any, else the data of the enclosing scope.
    pub open spec fn container(self, outer: Map<u64, Seq<char>>) -> Map<u64, Seq<char>> {
        match self.data {
            Some(own) => own,
            None => outer,
        }
    }

    /// The answer to `request`: that of the first route whose guards all
    /// accept; else that of the default handler; else `405`.
    pub open spec fn dispatch(self, request: RequestView, outer: Map<u64, Seq<char>>) -> ResponseView {
        match first_match(self.routes, request, 0) {
            Some(i) => self.routes[i].handler.reply(request, self.container(outer)),
            None => match self.default {
                Some(handler) => handler.reply(request, outer),
                None => bare_response(STATUS_METHOD_NOT_ALLOWED),
            },
        }
    }
}

/// The compiled form of a resource: its routes in registration order, its
/// scoped data and its default handler. Nothing changes it once it is built.
pub struct ResourceFactory {
    routes: Vec<Route>,
    data: Option<Extensions>,
    default: Option<Handler>,
}

impl View for ResourceFactory {
    type V = FactoryView;

    closed spec fn view(&self) -> FactoryView {
        FactoryView {
            routes: route_views(self.routes@),
            data: data_view(self.data),
            default: self.default,
        }
    }
}

impl ResourceFactory {
    /// Compiles routes, scoped data and default handler into a dispatcher.
    pub fn new(routes: Vec<Route>, data: Option<Extensions>, default: Option<Handler>) -> (factory:
        ResourceFactory)
        ensures
            factory@ == (FactoryView {
                routes: route_views(routes@),
                data: data_view(data),
                default,
            }),
    {
        ResourceFactory { routes, data, default }
    }

    /// Answers `request`. `outer` is the data of the enclosing scope.
    pub fn dispatch(&self, request: &Request, outer: &Extensions) -> (response: Response)
        ensures
            response@ == self@.dispatch(request@, outer@),
    {
        let mut i: usize = 0;
        while i < self.routes.len()
            invariant
                i <= self.routes.len(),
                first_match(route_views(self.routes@), request@, 0) == first_match(
                    route_views(self.routes@),
                    request@,
                    i as int,
                ),
            decreases self.routes.len() - i,
        {
            assert(route_views(self.routes@)[i as int] == self.routes@[i as int]@);
            if self.routes[i].check(request) {
                let handler = self.routes[i].handler();
                return match &self.data {
                    Some(own) => handler.call(request, own),
                    None => handler.call(request, outer),
                };
            }
            i = i + 1;
        }
        match self.default {
            Some(handler) => handler.call(request, outer),
            None => Response::new(STATUS_METHOD_NOT_ALLOWED),
        }
    }
}

/// A cell for the compiled dispatcher that is written once. It is empty
/// while the resource is configured and filled when the resource is
/// finalized, before any request is dispatched.
pub struct FactorySlot {
    factory: Option<ResourceFactory>,
}

impl View for FactorySlot {
    type V = Option<FactoryView>;

    closed spec fn view(&self) -> Option<FactoryView> {
        match self.factory {
            Some(factory) => Some(factory@),
            None => None,
        }
    }
}

impl FactorySlot {
    /// An empty slot.
    pub fn new() -> (slot: FactorySlot)
        ensures
            slot@ is None,
    {
        FactorySlot { factory: None }
    }

    /// Whether the slot has been filled.
    pub fn is_filled(&self) -> (filled: bool)
        ensures
            filled == self@ is Some,
    {
        self.factory.is_some()
    }

    /// Fills the empty slot.
    pub fn fill(&mut self, factory: ResourceFactory)
        requires
            old(self)@ is None,
        ensures
            final(self)@ == Some(factory@),
    {
        self.factory = Some(factory);
    }

    /// The dispatcher in the filled slot.
    pub fn get(&self) -> (factory: &ResourceFactory)
        requires
            self@ is Some,
        ensures
            Some(factory@) == self@,
    {
        self.factory.as_ref().unwrap()
    }
}

/// The front-end of a resource: it answers with whatever dispatcher its
/// slot holds.
pub struct ResourceEndpoint {
    factory: FactorySlot,
}

impl View for ResourceEndpoint {
    type V = Option<FactoryView>;

    closed spec fn view(&self) -> Option<FactoryView> {
        self.factory@
    }
}

impl ResourceEndpoint {
    /// A front-end over `factory`.
    pub fn new(factory: FactorySlot) -> (endpoint: ResourceEndpoint)
        ensures
            endpoint@ == factory@,
    {
        ResourceEndpoint { factory }
    }

    /// The dispatcher that serves this front-end's requests.
    pub fn new_service(&self) -> (service: &ResourceFactory)
        requires
            self@ is Some,
        ensures
            Some(service@) == self@,
    {
        self.factory.get()
    }

    /// Stores the compiled dispatcher in the front-end's empty slot.
    pub fn fill(&mut self, factory: ResourceFactory)
        requires
            old(self)@ is None,
        ensures
            final(self)@ == Some(factory@),
    {
        self.factory.fill(factory);
    }
}

/// The answer of `factory` inside `layers`. The layer registered last is the
/// outermost: it sees the request first and the response last.
pub open spec fn wrapped_reply(
    layers: Seq<MiddlewareView>,
    factory: FactoryView,
    request: RequestView,
    outer: Map<u64, Seq<char>>,
) -> ResponseView
    decreases layers.len(),
{
    if layers.len() == 0 {
        factory.dispatch(request, outer)
    } else {
        layers.last().after(
            wrapped_reply(layers.drop_last(), factory, layers.last().before(request), outer),
        )
    }
}

/// What a wrapped front-end is, as plain values.
pub struct PipelineView {
    pub layers: Seq<MiddlewareView>,
    pub factory: Option<FactoryView>,
}

impl PipelineView {
    /// The answer to `request` once the slot is filled.
    pub open spec fn reply(self, request: RequestView, outer: Map<u64, Seq<char>>) -> ResponseView
        recommends
            self.factory is Some,
    {
        wrapped_reply(self.layers, self.factory->0, request, outer)
    }
}

/// A resource's front-end inside its middleware layers, in the order in
/// which the layers were registered.
pub struct Pipeline {
    layers: Vec<Middleware>,
    endpoint: ResourceEndpoint,
}

impl View for Pipeline {
    type V = PipelineView;

    closed spec fn view(&self) -> PipelineView {
        PipelineView { layers: middleware_views(self.layers@), factory: self.endpoint@ }
    }
}

impl Pipeline {
    /// The bare front-end, without layers.
    pub fn new(endpoint: ResourceEndpoint) -> (pipeline: Pipeline)
        ensures
            pipeline@ == (PipelineView { layers: Seq::empty(), factory: endpoint@ }),
    {
        let pipeline = Pipeline { layers: Vec::new(), endpoint };
        assert(middleware_views(pipeline.layers@) =~= Seq::empty());
        pipeline
    }

    /// The pipeline inside one more layer, which becomes the outermost.
    pub fn wrap(self, layer: Middleware) -> (pipeline: Pipeline)
        ensures
            pipeline@ == (PipelineView { layers: self@.layers.push(layer@), ..self@ }),
    {
        let mut pipeline = self;
        let ghost before = pipeline.layers@;
        pipeline.layers.push(layer);
        assert(middleware_views(pipeline.layers@) =~= middleware_views(before).push(layer@));
        pipeline
    }

    /// Stores the compiled dispatcher in the front-end's empty slot.
    pub fn fill(&mut self, factory: ResourceFactory)
        requires
            old(self)@.factory is None,
        ensures
            final(self)@ == (PipelineView { factory: Some(factory@), ..old(self)@ }),
    {
        self.endpoint.fill(factory);
    }

    /// Whether the slot has been filled.
    pub fn is_ready(&self) -> (ready: bool)
        ensures
            ready == self@.factory is Some,
    {
        self.endpoint.factory.is_filled()
    }

    /// Answers `request` through the layers. `outer` is the data of the
    /// enclosing scope.
    pub fn call(&self, request: &Request, outer: &Extensions) -> (response: Response)
        requires
            self@.factory is Some,
        ensures
            response@ == self@.reply(request@, outer@),
    {
        assert(self.layers@.take(self.layers@.len() as int) =~= self.layers@);
        self.call_within(self.layers.len(), request.duplicate(), outer)
    }

    /// Answers `request` through the innermost `depth` layers.
    fn call_within(&self, depth: usize, request: Request, outer: &Extensions) -> (response:
        Response)
        requires
            self@.factory is Some,
            depth <= self.layers@.len(),
        ensures
            response@ == wrapped_reply(
                middleware_views(self.layers@.take(depth as int)),
                self@.factory->0,
                request@,
                outer@,
            ),
        decreases depth,
    {
        if depth == 0 {
            assert(middleware_views(self.layers@.take(0)) =~= Seq::empty());
            self.endpoint.new_service().dispatch(&request, outer)
        } else {
            let layer = &self.layers[depth - 1];
            let mut inner_request = request;
            layer.on_request(&mut inner_request);
            let mut response = self.call_within(depth - 1, inner_request, outer);
            layer.on_response(&mut response);
            proof {
                let upto = middleware_views(self.layers@.take(depth as int));
                assert(upto.last() == layer@);
                assert(upto.drop_last() =~= middleware_views(self.layers@.take(depth - 1)));
            }
            response
        }
    }
}

/// Whether the layer sets the header `name` on responses.
pub open spec fn sets_response_header(layer: MiddlewareView, name: Seq<char>) -> bool {
    layer matches MiddlewareView::ResponseHeader(n, _) && n == name
}

/// A layer that sets a response header, with no layer outside it that sets
/// the same header, puts its value on every response of the wrapped
/// front-end: on that of a matched route, of the default handler, and on
/// the `405`.
pub proof fn lemma_layer_header_on_every_response(
    layers: Seq<MiddlewareView>,
    at: int,
    name: Seq<char>,
    value: Seq<char>,
    factory: FactoryView,
    request: RequestView,
    outer: Map<u64, Seq<char>>,
)
    requires
        0 <= at < layers.len(),
        layers[at] == MiddlewareView::ResponseHeader(name, value),
        forall|j: int| at < j < layers.len() ==> !sets_response_header(#[trigger] layers[j], name),
    ensures
        wrapped_reply(layers, factory, request, outer).headers.contains_key(name),
        wrapped_reply(layers, factory, request, outer).headers[name] == value,
    decreases layers.len(),
{
    if at < layers.len() - 1 {
        let last = layers.last();
        assert(!sets_response_header(layers[layers.len() - 1], name));
        lemma_layer_header_on_every_response(
            layers.drop_last(),
            at,
            name,
            value,
            factory,
            last.before(request),
            outer,
        );
    }
}

/// Wrapping in a layer that sets a response header puts the header's value
/// on every response, whatever the layers inside set.
pub proof fn lemma_wrap_sets_header(
    pipeline: PipelineView,
    name: Seq<char>,
    value: Seq<char>,
    request: RequestView,
    outer: Map<u64, Seq<char>>,
)
    ensures
        ({
            let wrapped = PipelineView {
                layers: pipeline.layers.push(MiddlewareView::ResponseHeader(name, value)),
                ..pipeline
            };
            wrapped.reply(request, outer).headers.contains_key(name) && wrapped.reply(
                request,
                outer,
            ).headers[name] == value
        }),
{
    let layers = pipeline.layers.push(MiddlewareView::ResponseHeader(name, value));
    lemma_layer_header_on_every_response(
        layers,
        layers.len() - 1,
        name,
        value,
        pipeline.factory->0,
        request,
        outer,
    );
}

/// The request as the dispatcher sees it: rewritten by each layer in turn,
/// from the layer registered last to the one registered first.
pub open spec fn inbound(layers: Seq<MiddlewareView>, request: RequestView) -> RequestView
    decreases layers.len(),
{
    if layers.len() == 0 {
        request
    } else {
        inbound(layers.drop_last(), layers.last().before(request))
    }
}

/// The response as the caller sees it: rewritten by each layer in turn,
/// from the layer registered first to the one registered last.
pub open spec fn outbound(layers: Seq<MiddlewareView>, response: ResponseView) -> ResponseView
    decreases layers.len(),
{
    if layers.len() == 0 {
        response
    } else {
        layers.last().after(outbound(layers.drop_last(), response))
    }
}

/// The answer inside layers is the dispatcher's answer to the inbound
/// request, sent outbound. Layers keep the request's method and path, and
/// the response's status and body.
pub proof fn lemma_wrapped_reply_unrolls(
    layers: Seq<MiddlewareView>,
    factory: FactoryView,
    request: RequestView,
    outer: Map<u64, Seq<char>>,
)
    ensures
        wrapped_reply(layers, factory, request, outer) == outbound(
            layers,
            factory.dispatch(inbound(layers, request), outer),
        ),
        inbound(layers, request).method == request.method,
        inbound(layers, request).path == request.path,
        wrapped_reply(layers, factory, request, outer).status == factory.dispatch(
            inbound(layers, request),
            outer,
        ).status,
        wrapped_reply(layers, factory, request, outer).body == factory.dispatch(
            inbound(layers, request),
            outer,
        ).body,
    decreases layers.len(),
{
    if layers.len() > 0 {
        lemma_wrapped_reply_unrolls(
            layers.drop_last(),
            factory,
            layers.last().before(request),
            outer,
        );
    }
}

/// A request that the guards of an earlier route accept goes to the first
/// such route; its handler extracts from the resource's own data where the
/// resource has any.
pub proof fn lemma_dispatch_first_match(
    factory: FactoryView,
    request: RequestView,
    outer: Map<u64, Seq<char>>,
    i: int,
)
    requires
        0 <= i < factory.routes.len(),
        factory.routes[i].matches(request),
        forall|j: int| 0 <= j < i ==> !(#[trigger] factory.routes[j]).matches(request),
    ensures
        factory.dispatch(request, outer) == factory.routes[i].handler.reply(
            request,
            factory.container(outer),
        ),
{
    lemma_first_match(factory.routes, request, 0);
}

/// A request that no route's guards accept goes to the default handler,
/// which extracts from the enclosing scope; without a default handler the
/// answer is a bare `405`.
pub proof fn lemma_dispatch_no_match(
    factory: FactoryView,
    request: RequestView,
    outer: Map<u64, Seq<char>>,
)
    requires
        forall|j: int|
            0 <= j < factory.routes.len() ==> !(#[trigger] factory.routes[j]).matches(request),
    ensures
        factory.dispatch(request, outer) == match factory.default {
            Some(handler) => handler.reply(request, outer),
            None => bare_response(STATUS_METHOD_NOT_ALLOWED),
        },
{
    lemma_first_match(factory.routes, request, 0);
}

/// A route that is open to requests with the given method only.
pub open spec fn method_route(method: Method, handler: Handler) -> RouteView {
    RouteView { guards: seq![GuardView::Method(method)], handler, deferred: false }
}

/// With a route for one method registered before a route for another, a
/// request with the first method goes to the first route's handler, one with
/// the second method to the second route's handler, and any other request
/// to the default handler, or gets `405` where there is none.
pub proof fn lemma_method_routes(
    one: Method,
    first: Handler,
    other: Method,
    second: Handler,
    data: Option<Map<u64, Seq<char>>>,
    default: Option<Handler>,
    request: RequestView,
    outer: Map<u64, Seq<char>>,
)
    requires
        one != other,
    ensures
        ({
            let factory = FactoryView {
                routes: seq![method_route(one, first), method_route(other, second)],
                data,
                default,
            };
            let answer = factory.dispatch(request, outer);
            &&& request.method == one ==> answer == first.reply(request, factory.container(outer))
            &&& request.method == other ==> answer == second.reply(
                request,
                factory.container(outer),
            )
            &&& request.method != one && request.method != other ==> answer == match default {
                Some(handler) => handler.reply(request, outer),
                None => bare_response(STATUS_METHOD_NOT_ALLOWED),
            }
        }),
{
    let routes = seq![method_route(one, first), method_route(other, second)];
    let factory = FactoryView { routes, data, default };
    assert(routes[0].guards[0] == GuardView::Method(one));
    assert(routes[1].guards[0] == GuardView::Method(other));
    assert(routes[0].matches(request) == (request.method == one)) by {
        if request.method != one {
            assert(!routes[0].guards[0].accepts(request));
        }
    }
    assert(routes[1].matches(request) == (request.method == other)) by {
        if request.method != other {
            assert(!routes[1].guards[0].accepts(request));
        }
    }
    if request.method == one {
        lemma_dispatch_first_match(factory, request, outer, 0);
    } else if request.method == other {
        lemma_dispatch_first_match(factory, request, outer, 1);
    } else {
        lemma_dispatch_no_match(factory, request, outer);
    }
}

} // verus!
