//! The resource builder, and its publication under two patterns.

use crate::data::Extensions;
use crate::guard::{guard_views, Guard, GuardView};
use crate::handler::Handler;
use crate::middleware::{Middleware, MiddlewareView};
use crate::http::{RequestView, ResponseView, STATUS_OK};
use crate::path::{
    collapse_slashes, ends_with_slash, lemma_secondary_appends_slash,
    lemma_secondary_strips_slash, merge_slashes, primary_pattern, secondary_pattern,
    toggle_slash,
};
use crate::pattern::{ResourceDef, ResourceDefView};
use crate::registry::{AppService, AppServiceView, RegistrationView};
use crate::route::{route_views, Route, RouteView};
use crate::service::{
    data_view, lemma_dispatch_first_match, lemma_wrap_sets_header, FactorySlot, FactoryView,
    Pipeline, PipelineView, ResourceEndpoint, ResourceFactory,
};
use vstd::prelude::*;

verus! {

/// What a resource's configuration is, as plain values.
pub struct ResourceView {
    pub pattern: Seq<char>,
    pub name: Option<Seq<char>>,
    pub guards: Seq<GuardView>,
    pub routes: Seq<RouteView>,
    pub data: Option<Map<u64, Seq<char>>>,
    pub default: Option<Handler>,
    pub layers: Seq<MiddlewareView>,
}

impl ResourceView {
    /// The configuration with `value` stored under `key` in its scoped
    /// data, which begins to exist with the first value.
    pub open spec fn with_data(self, key: u64, value: Seq<char>) -> ResourceView {
        ResourceView {
            data: Some(
                match self.data {
                    Some(own) => own.insert(key, value),
                    None => Map::empty().insert(key, value),
                },
            ),
            ..self
        }
    }

    /// The configuration as it stands in a scope whose data is `outer`:
    /// where the resource has data of its own, the scope's data is in reach
    /// under the keys that the resource's data lacks.
    pub open spec fn scoped(self, outer: Map<u64, Seq<char>>) -> ResourceView {
        ResourceView {
            data: match self.data {
                Some(own) => Some(outer.union_prefer_right(own)),
                None => None,
            },
            ..self
        }
    }

    /// The published service: the layers around a front-end whose slot
    /// holds the routes, the scoped data and the default handler.
    pub open spec fn compiled(self) -> PipelineView {
        PipelineView {
            layers: self.layers,
            factory: Some(
                FactoryView { routes: self.routes, data: self.data, default: self.default },
            ),
        }
    }

    /// The handle under which both registrations find the guard set in
    /// `registry`; none where the resource has no guards.
    pub open spec fn guards_handle(self, registry: AppServiceView) -> Option<int> {
        if self.guards.len() == 0 {
            None
        } else {
            Some(registry.guard_sets.len() as int)
        }
    }

    /// The registration under the primary pattern, which carries the name.
    pub open spec fn primary(self, registry: AppServiceView) -> RegistrationView {
        RegistrationView {
            rdef: ResourceDefView {
                pattern: primary_pattern(self.pattern),
                name: match self.name {
                    Some(name) => name,
                    None => Seq::empty(),
                },
            },
            guards: self.guards_handle(registry),
            service: registry.services.len() as int,
            hint: None,
        }
    }

    /// The registration under the secondary pattern, bound to the same
    /// service and the same guard set.
    pub open spec fn secondary(self, registry: AppServiceView) -> RegistrationView {
        RegistrationView {
            rdef: ResourceDefView {
                pattern: secondary_pattern(self.pattern),
                name: Seq::empty(),
            },
            guards: self.guards_handle(registry),
            service: registry.services.len() as int,
            hint: None,
        }
    }
}

/// The registry after `resource` was registered in it: one more shared
/// service, one more shared guard set where the resource has guards, and two
/// more registrations, the primary before the secondary.
pub open spec fn published(registry: AppServiceView, resource: ResourceView) -> AppServiceView {
    AppServiceView {
        guard_sets: if resource.guards.len() == 0 {
            registry.guard_sets
        } else {
            registry.guard_sets.push(resource.guards)
        },
        services: registry.services.push(resource.scoped(registry.data).compiled()),
        served: registry.served.push(0),
        entries: registry.entries.push(resource.primary(registry)).push(
            resource.secondary(registry),
        ),
        ..registry
    }
}

/// A resource under configuration.
pub struct NormalizedResource {
    endpoint: Pipeline,
    rdef: String,
    name: Option<String>,
    routes: Vec<Route>,
    data: Option<Extensions>,
    guards: Vec<Guard>,
    default: Option<Handler>,
}

impl View for NormalizedResource {
    type V = ResourceView;

    closed spec fn view(&self) -> ResourceView {
        ResourceView {
            pattern: self.rdef@,
            name: match self.name {
                Some(name) => Some(name@),
                None => None,
            },
            guards: guard_views(self.guards@),
            routes: route_views(self.routes@),
            data: data_view(self.data),
            default: self.default,
            layers: self.endpoint@.layers,
        }
    }
}

impl NormalizedResource {
    /// Whether the resource is still under configuration: the slot of its
    /// front-end is empty.
    pub closed spec fn wf(&self) -> bool {
        self.endpoint@.factory is None
    }

    /// A resource for `path`, without name, guards, routes, data, layers or
    /// default handler.
    pub fn new(path: &str) -> (resource: NormalizedResource)
        ensures
            resource.wf(),
            resource@ == (ResourceView {
                pattern: path@,
                name: None,
                guards: Seq::empty(),
                routes: Seq::empty(),
                data: None,
                default: None,
                layers: Seq::empty(),
            }),
    {
        let fref = FactorySlot::new();
        let resource = NormalizedResource {
            routes: Vec::new(),
            rdef: path.to_owned(),
            name: None,
            endpoint: Pipeline::new(ResourceEndpoint::new(fref)),
            guards: Vec::new(),
            data: None,
            default: None,
        };
        assert(guard_views(resource.guards@) =~= Seq::empty());
        assert(route_views(resource.routes@) =~= Seq::empty());
        resource
    }

    /// Sets the resource's name.
    pub fn name(self, name: &str) -> (resource: NormalizedResource)
        requires
            self.wf(),
        ensures
            resource.wf(),
            resource@ == (ResourceView { name: Some(name@), ..self@ }),
    {
        let mut resource = self;
        resource.name = Some(name.to_owned());
        resource
    }

    /// Adds a guard to the resource.
    pub fn guard(self, guard: Guard) -> (resource: NormalizedResource)
        requires
            self.wf(),
        ensures
            resource.wf(),
            resource@ == (ResourceView { guards: self@.guards.push(guard@), ..self@ }),
    {
        let mut resource = self;
        resource.guards.push(guard);
        assert(guard_views(resource.guards@) =~= guard_views(self.guards@).push(guard@));
        resource
    }

    /// Adds guards to the resource, in their order.
    pub fn add_guards(self, guards: Vec<Guard>) -> (resource: NormalizedResource)
        requires
            self.wf(),
        ensures
            resource.wf(),
            resource@ == (ResourceView {
                guards: self@.guards + guard_views(guards@),
                ..self@
            }),
    {
        let mut resource = self;
        let mut guards = guards;
        let ghost added = guards@;
        resource.guards.append(&mut guards);
        assert(guard_views(resource.guards@) =~= guard_views(self.guards@) + guard_views(added));
        resource
    }

    /// Registers a route, after the routes registered before.
    pub fn route(self, route: Route) -> (resource: NormalizedResource)
        requires
            self.wf(),
        ensures
            resource.wf(),
            resource@ == (ResourceView { routes: self@.routes.push(route@), ..self@ }),
    {
        let mut resource = self;
        resource.routes.push(route);
        assert(route_views(resource.routes@) =~= route_views(self.routes@).push(route@));
        resource
    }

    /// Stores `value` under the type key `key` in the resource's scoped
    /// data. The last value stored under a key wins.
    pub fn data(self, key: u64, value: &str) -> (resource: NormalizedResource)
        requires
            self.wf(),
        ensures
            resource.wf(),
            resource@ == self@.with_data(key, value@),
    {
        let mut resource = self;
        let mut own = match resource.data {
            Some(own) => own,
            None => Extensions::new(),
        };
        own.insert(key, value);
        resource.data = Some(own);
        resource
    }

    /// Registers a route without guards for `handler`.
    pub fn to(self, handler: Handler) -> (resource: NormalizedResource)
        requires
            self.wf(),
        ensures
            resource.wf(),
            resource@ == (ResourceView {
                routes: self@.routes.push(
                    RouteView { guards: Seq::empty(), handler, deferred: false },
                ),
                ..self@
            }),
    {
        self.route(Route::new().to(handler))
    }

    /// Registers a route without guards for `handler`, whose answer is
    /// awaited.
    pub fn to_async(self, handler: Handler) -> (resource: NormalizedResource)
        requires
            self.wf(),
        ensures
            resource.wf(),
            resource@ == (ResourceView {
                routes: self@.routes.push(
                    RouteView { guards: Seq::empty(), handler, deferred: true },
                ),
                ..self@
            }),
    {
        self.route(Route::new().to_async(handler))
    }

    /// Wraps the resource in a layer, which becomes the outermost: layers
    /// see a request in the opposite order of their registration.
    pub fn wrap(self, mw: Middleware) -> (resource: NormalizedResource)
        requires
            self.wf(),
        ensures
            resource.wf(),
            resource@ == (ResourceView { layers: self@.layers.push(mw@), ..self@ }),
    {
        let endpoint = self.endpoint.wrap(mw);
        NormalizedResource {
            endpoint,
            rdef: self.rdef,
            name: self.name,
            guards: self.guards,
            routes: self.routes,
            default: self.default,
            data: self.data,
        }
    }

    /// Wraps the resource in a layer given as a function of the request and
    /// the next layer.
    pub fn wrap_fn(self, mw: Middleware) -> (resource: NormalizedResource)
        requires
            self.wf(),
        ensures
            resource.wf(),
            resource@ == (ResourceView { layers: self@.layers.push(mw@), ..self@ }),
    {
        self.wrap(mw)
    }

    /// Replaces the default handler by the one that was built. Where
    /// building it failed, the resource has no default handler.
    pub fn default_service<E>(self, built: Result<Handler, E>) -> (resource: NormalizedResource)
        requires
            self.wf(),
        ensures
            resource.wf(),
            resource@ == (ResourceView {
                default: match built {
                    Ok(handler) => Some(handler),
                    Err(_) => None,
                },
                ..self@
            }),
    {
        let mut resource = self;
        resource.default = match built {
            Ok(handler) => Some(handler),
            Err(_) => None,
        };
        resource
    }

    /// Compiles routes, scoped data and default handler, stores them in the
    /// slot of the front-end, and hands out the front-end in its layers.
    pub fn into_new_service(self) -> (service: Pipeline)
        requires
            self.wf(),
        ensures
            service@ == self@.compiled(),
    {
        let mut endpoint = self.endpoint;
        endpoint.fill(ResourceFactory::new(self.routes, self.data, self.default));
        endpoint
    }

    /// Publishes the resource in `config` under its primary and its
    /// secondary pattern, both bound to one shared service and, where the
    /// resource has guards, to one shared guard set. Where the resource has
    /// data of its own, the data of `config` joins it under the keys that
    /// the resource's data lacks. A resource for `/` is published under `/`
    /// and under the empty pattern.
    pub fn register(self, config: &mut AppService)
        requires
            self.wf(),
        ensures
            final(config)@ == published(old(config)@, self@),
    {
        let mut resource = self;
        let guards: Option<usize> = if resource.guards.len() == 0 {
            None
        } else {
            let mut own: Vec<Guard> = Vec::new();
            own.append(&mut resource.guards);
            Some(config.share_guards(own))
        };
        let primary = merge_slashes(resource.rdef.as_str());
        let mut rdef = ResourceDef::new(primary.as_str());
        match &resource.name {
            Some(name) => {
                rdef.set_name(name.as_str());
            },
            None => {},
        }
        match &mut resource.data {
            Some(own) => {
                config.set_service_data(own);
            },
            None => {},
        }
        let secondary = toggle_slash(primary.as_str());
        let secondary_rdef = ResourceDef::new(secondary.as_str());
        let service: usize = config.share_service(resource.into_new_service());
        config.register_service(rdef, guards, service, None);
        config.register_service(secondary_rdef, guards, service, None);
    }
}

/// Registering keeps a registry well formed, keeps what was registered
/// before, and adds exactly two registrations that are bound to one service:
/// the one shared service that registering added.
pub proof fn lemma_published_adds_two(registry: AppServiceView, resource: ResourceView)
    requires
        registry.wf(),
    ensures
        ({
            let after = published(registry, resource);
            let n = registry.entries.len() as int;
            &&& after.wf()
            &&& after.entries.len() == n + 2
            &&& after.entries.take(n) == registry.entries
            &&& after.services.len() == registry.services.len() + 1
            &&& after.services.take(registry.services.len() as int) == registry.services
            &&& after.entries[n].service == registry.services.len()
            &&& after.entries[n + 1].service == after.entries[n].service
            &&& after.entries[n + 1].guards == after.entries[n].guards
            &&& after.entries[n].rdef.pattern == primary_pattern(resource.pattern)
            &&& after.entries[n + 1].rdef.pattern == secondary_pattern(resource.pattern)
            &&& after.served[after.entries[n].service] == 0
        }),
{
    let after = published(registry, resource);
    let n = registry.entries.len() as int;
    assert(after.entries.take(n) =~= registry.entries);
    assert(after.services.take(registry.services.len() as int) =~= registry.services);
    assert forall|k: int| 0 <= k < after.entries.len() implies {
        &&& 0 <= (#[trigger] after.entries[k]).service < after.services.len()
        &&& after.entries[k].guards matches Some(g) ==> 0 <= g < after.guard_sets.len()
    } by {
        if k < n {
            assert(after.entries[k] == registry.entries[k]);
        }
    }
    assert forall|s: int| 0 <= s < after.services.len() implies (
    #[trigger] after.services[s]).factory is Some by {
        if s < registry.services.len() {
            assert(after.services[s] == registry.services[s]);
        }
    }
}

/// A resource whose pattern does not end with a slash is registered under
/// the pattern with its slash runs merged and under that pattern followed by
/// one slash, and both registrations are bound to the same service.
pub proof fn lemma_published_without_trailing_slash(
    registry: AppServiceView,
    resource: ResourceView,
)
    requires
        registry.wf(),
        !ends_with_slash(resource.pattern),
    ensures
        ({
            let after = published(registry, resource);
            let n = registry.entries.len() as int;
            &&& after.entries.len() == n + 2
            &&& after.entries[n].rdef.pattern == collapse_slashes(resource.pattern)
            &&& after.entries[n + 1].rdef.pattern == collapse_slashes(resource.pattern).push('/')
            &&& after.entries[n].service == after.entries[n + 1].service
        }),
{
    lemma_published_adds_two(registry, resource);
    lemma_secondary_appends_slash(resource.pattern);
}

/// A resource whose pattern, once its slash runs are merged, ends with a
/// slash is registered under the merged pattern and under the merged
/// pattern with exactly one trailing slash removed.
pub proof fn lemma_published_with_trailing_slash(registry: AppServiceView, resource: ResourceView)
    requires
        registry.wf(),
        ends_with_slash(collapse_slashes(resource.pattern)),
    ensures
        ({
            let after = published(registry, resource);
            let n = registry.entries.len() as int;
            &&& after.entries.len() == n + 2
            &&& after.entries[n].rdef.pattern == collapse_slashes(resource.pattern)
            &&& after.entries[n + 1].rdef.pattern == collapse_slashes(resource.pattern).drop_last()
            &&& after.entries[n + 1].rdef.pattern.push('/') == after.entries[n].rdef.pattern
            &&& after.entries[n].service == after.entries[n + 1].service
        }),
{
    lemma_published_adds_two(registry, resource);
    lemma_secondary_strips_slash(resource.pattern);
}

/// Answering a request changes nothing that decides which registration is
/// eligible.
pub proof fn lemma_after_keeps_routing(
    registry: AppServiceView,
    answered: RequestView,
    request: RequestView,
    from: int,
)
    ensures
        registry.after(answered).first_entry(request, from) == registry.first_entry(
            request,
            from,
        ),
    decreases registry.entries.len() - from,
{
    let later = registry.after(answered);
    assert(later.entries == registry.entries);
    assert(later.guard_sets == registry.guard_sets);
    if 0 <= from < registry.entries.len() {
        assert(later.entry_fits(from, request) == registry.entry_fits(from, request));
        if !registry.entry_fits(from, request) {
            lemma_after_keeps_routing(registry, answered, request, from + 1);
        }
    }
}

/// The two registrations of a resource reach one service: a request
/// answered through the primary registration and one answered through the
/// secondary registration are both counted by the same service.
pub proof fn lemma_both_registrations_share_state(
    registry: AppServiceView,
    resource: ResourceView,
    first: RequestView,
    second: RequestView,
)
    requires
        registry.wf(),
        published(registry, resource).first_entry(first, 0) == Some(
            registry.entries.len() as int,
        ),
        published(registry, resource).first_entry(second, 0) == Some(
            registry.entries.len() as int + 1,
        ),
    ensures
        ({
            let after = published(registry, resource);
            let service = registry.services.len() as int;
            let pipeline = resource.scoped(registry.data).compiled();
            &&& after.reply(first) == pipeline.reply(first, registry.data)
            &&& after.reply(second) == pipeline.reply(second, registry.data)
            &&& after.served[service] == 0
            &&& after.after(first).served[service] == 1
            &&& after.after(first).after(second).served[service] == 2
        }),
{
    let after = published(registry, resource);
    lemma_published_adds_two(registry, resource);
    lemma_after_keeps_routing(after, first, second, 0);
}

/// A resource wrapped in a layer that sets a response header answers every
/// request with that header set to the layer's value: through a matched
/// route, through the default handler, and with the `405`.
pub proof fn lemma_wrapped_resource_sets_header(
    resource: ResourceView,
    name: Seq<char>,
    value: Seq<char>,
    request: RequestView,
    outer: Map<u64, Seq<char>>,
)
    ensures
        ({
            let wrapped = ResourceView {
                layers: resource.layers.push(MiddlewareView::ResponseHeader(name, value)),
                ..resource
            };
            let answer = wrapped.scoped(outer).compiled().reply(request, outer);
            answer.headers.contains_key(name) && answer.headers[name] == value
        }),
{
    lemma_wrap_sets_header(resource.scoped(outer).compiled(), name, value, request, outer);
}

/// Data stored in a resource is what the handler of every route of the
/// resource extracts under that key, whatever the enclosing scope holds
/// under the same key.
pub proof fn lemma_scoped_data_overrides_outer(
    resource: ResourceView,
    key: u64,
    value: Seq<char>,
    outer: Map<u64, Seq<char>>,
    request: RequestView,
    i: int,
)
    requires
        0 <= i < resource.routes.len(),
        resource.routes[i].matches(request),
        forall|j: int| 0 <= j < i ==> !(#[trigger] resource.routes[j]).matches(request),
    ensures
        ({
            let factory = resource.with_data(key, value).scoped(outer).compiled().factory->0;
            &&& factory.container(outer).contains_key(key)
            &&& factory.container(outer)[key] == value
            &&& factory.dispatch(request, outer) == resource.routes[i].handler.reply(
                request,
                factory.container(outer),
            )
            &&& resource.routes[i].handler == Handler::Extract(key) ==> factory.dispatch(
                request,
                outer,
            ) == (ResponseView { status: STATUS_OK, headers: Map::empty(), body: value })
        }),
{
    let factory = resource.with_data(key, value).scoped(outer).compiled().factory->0;
    lemma_dispatch_first_match(factory, request, outer, i);
}

} // verus!
