//! The registry that resources are published in, and that routes requests
//! to what was published.

use crate::data::Extensions;
use crate::guard::{all_accept, check_all, guard_views, Guard, GuardView};
use crate::handler::Handler;
use crate::http::{bare_response, Request, RequestView, Response, ResponseView, STATUS_NOT_FOUND};
use crate::pattern::{pattern_matches, ResourceDef, ResourceDefView};
use crate::service::{Pipeline, PipelineView};
use vstd::prelude::*;

verus! {

/// What one registration is, as plain values: a resource definition, the
/// handles of its guard set and of its service, and a precedence hint.
pub struct RegistrationView {
    pub rdef: ResourceDefView,
    pub guards: Option<int>,
    pub service: int,
    pub hint: Option<u32>,
}

/// What a registry is, as plain values.
pub struct AppServiceView {
    pub root: bool,
    pub data: Map<u64, Seq<char>>,
    pub default: Option<Handler>,
    pub guard_sets: Seq<Seq<GuardView>>,
    pub services: Seq<PipelineView>,
    pub served: Seq<u64>,
    pub entries: Seq<RegistrationView>,
}

/// One more, unless the counter is at its limit.
pub open spec fn bumped(count: u64) -> u64 {
    if count < u64::MAX {
        (count + 1) as u64
    } else {
        count
    }
}

impl AppServiceView {
    /// Every registration refers to a shared service and, where it has
    /// guards, to a shared guard set of this registry; every shared service
    /// is ready to answer and has its counter.
    pub open spec fn wf(self) -> bool {
        &&& self.served.len() == self.services.len()
        &&& forall|s: int| 0 <= s < self.services.len() ==> (#[trigger] self.services[s]).factory is Some
        &&& forall|k: int|
            0 <= k < self.entries.len() ==> {
                &&& 0 <= (#[trigger] self.entries[k]).service < self.services.len()
                &&& self.entries[k].guards matches Some(g) ==> 0 <= g < self.guard_sets.len()
            }
    }

    /// Whether registration `k` can answer at all: its service handle is
    /// one of this registry and the service's slot is filled.
    pub open spec fn entry_bound(self, k: int) -> bool {
        &&& 0 <= self.entries[k].service < self.services.len()
        &&& self.services[self.entries[k].service].factory is Some
    }

    /// Whether registration `k` is eligible for the request: it can answer,
    /// the path fits its pattern, and its guards, if any, are a guard set of
    /// this registry and all accept.
    pub open spec fn entry_fits(self, k: int, request: RequestView) -> bool {
        &&& self.entry_bound(k)
        &&& pattern_matches(self.entries[k].rdef.pattern, request.path)
        &&& match self.entries[k].guards {
            Some(g) => 0 <= g < self.guard_sets.len() && all_accept(self.guard_sets[g], request),
            None => true,
        }
    }

    /// The first registration, from `from` on, that is eligible.
    pub open spec fn first_entry(self, request: RequestView, from: int) -> Option<int>
        decreases self.entries.len() - from,
    {
        if from < 0 || from >= self.entries.len() {
            None
        } else if self.entry_fits(from, request) {
            Some(from)
        } else {
            self.first_entry(request, from + 1)
        }
    }

    /// The answer to `request`: that of the service of the first eligible
    /// registration; else that of the registry's default handler; else `404`.
    pub open spec fn reply(self, request: RequestView) -> ResponseView {
        match self.first_entry(request, 0) {
            Some(k) => self.services[self.entries[k].service].reply(request, self.data),
            None => match self.default {
                Some(handler) => handler.reply(request, self.data),
                None => bare_response(STATUS_NOT_FOUND),
            },
        }
    }

    /// The registry after it answered `request`: the service that answered
    /// has counted one more request.
    pub open spec fn after(self, request: RequestView) -> AppServiceView {
        match self.first_entry(request, 0) {
            Some(k) => {
                let s = self.entries[k].service;
                AppServiceView { served: self.served.update(s, bumped(self.served[s])), ..self }
            },
            None => self,
        }
    }
}

/// The first eligible registration is eligible, and none before it is;
/// where there is none, no registration is eligible.
pub proof fn lemma_first_entry(registry: AppServiceView, request: RequestView, from: int)
    requires
        0 <= from <= registry.entries.len(),
    ensures
        match registry.first_entry(request, from) {
            Some(k) => from <= k < registry.entries.len() && registry.entry_fits(k, request)
                && forall|j: int| from <= j < k ==> !registry.entry_fits(j, request),
            None => forall|j: int|
                from <= j < registry.entries.len() ==> !registry.entry_fits(j, request),
        },
    decreases registry.entries.len() - from,
{
    if from < registry.entries.len() && !registry.entry_fits(from, request) {
        lemma_first_entry(registry, request, from + 1);
    }
}

/// One registration: a resource definition bound to a shared service.
pub struct Registration {
    rdef: ResourceDef,
    guards: Option<usize>,
    service: usize,
    hint: Option<u32>,
}

impl View for Registration {
    type V = RegistrationView;

    closed spec fn view(&self) -> RegistrationView {
        RegistrationView {
            rdef: self.rdef@,
            guards: match self.guards {
                Some(g) => Some(g as int),
                None => None,
            },
            service: self.service as int,
            hint: self.hint,
        }
    }
}

/// A shared service with the number of requests it has answered.
pub struct Published {
    pipeline: Pipeline,
    served: u64,
}

/// The registry of an application or scope.
pub struct AppService {
    root: bool,
    data: Extensions,
    default: Option<Handler>,
    guard_sets: Vec<Vec<Guard>>,
    services: Vec<Published>,
    entries: Vec<Registration>,
}

impl View for AppService {
    type V = AppServiceView;

    closed spec fn view(&self) -> AppServiceView {
        AppServiceView {
            root: self.root,
            data: self.data@,
            default: self.default,
            guard_sets: Seq::new(self.guard_sets@.len(), |i: int| guard_views(self.guard_sets@[i]@)),
            services: Seq::new(self.services@.len(), |i: int| self.services@[i].pipeline@),
            served: Seq::new(self.services@.len(), |i: int| self.services@[i].served),
            entries: Seq::new(self.entries@.len(), |i: int| self.entries@[i]@),
        }
    }
}

impl AppService {
    /// An empty registry, for the root of an application or for a scope.
    pub fn new(root: bool) -> (registry: AppService)
        ensures
            registry@ == (AppServiceView {
                root,
                data: Map::empty(),
                default: None,
                guard_sets: Seq::empty(),
                services: Seq::empty(),
                served: Seq::empty(),
                entries: Seq::empty(),
            }),
    {
        let registry = AppService {
            root,
            data: Extensions::new(),
            default: None,
            guard_sets: Vec::new(),
            services: Vec::new(),
            entries: Vec::new(),
        };
        assert(registry@.guard_sets =~= Seq::empty());
        assert(registry@.services =~= Seq::empty());
        assert(registry@.served =~= Seq::empty());
        assert(registry@.entries =~= Seq::empty());
        registry
    }

    /// Whether this is the registry of an application's root.
    pub fn is_root(&self) -> (root: bool)
        ensures
            root == self@.root,
    {
        self.root
    }

    /// Stores `value` under `key` in the registry's own data, replacing
    /// what was stored there.
    pub fn data(&mut self, key: u64, value: &str)
        ensures
            final(self)@ == (AppServiceView {
                data: old(self)@.data.insert(key, value@),
                ..old(self)@
            }),
    {
        self.data.insert(key, value);
    }

    /// Sets the handler for requests that no registration is eligible for.
    pub fn default_service(&mut self, handler: Handler)
        ensures
            final(self)@ == (AppServiceView { default: Some(handler), ..old(self)@ }),
    {
        self.default = Some(handler);
    }

    /// Adds the registry's data to `extensions` under the keys that
    /// `extensions` lacks, and says whether the registry has any data.
    pub fn set_service_data(&self, extensions: &mut Extensions) -> (any: bool)
        ensures
            final(extensions)@ == self@.data.union_prefer_right(old(extensions)@),
            any == (self@.data != Map::<u64, Seq<char>>::empty()),
    {
        extensions.inherit(&self.data);
        !self.data.is_empty()
    }

    /// Takes a guard set into the registry and hands out its handle.
    pub fn share_guards(&mut self, guards: Vec<Guard>) -> (handle: usize)
        ensures
            handle == old(self)@.guard_sets.len(),
            final(self)@ == (AppServiceView {
                guard_sets: old(self)@.guard_sets.push(guard_views(guards@)),
                ..old(self)@
            }),
    {
        let handle: usize = self.guard_sets.len();
        self.guard_sets.push(guards);
        proof {
            assert(self@.guard_sets =~= old(self)@.guard_sets.push(guard_views(guards@)));
            assert(self@.services =~= old(self)@.services);
            assert(self@.served =~= old(self)@.served);
            assert(self@.entries =~= old(self)@.entries);
        }
        handle
    }

    /// Takes a service into the registry and hands out its handle. The
    /// service has answered no request yet.
    pub fn share_service(&mut self, pipeline: Pipeline) -> (handle: usize)
        ensures
            handle == old(self)@.services.len(),
            final(self)@ == (AppServiceView {
                services: old(self)@.services.push(pipeline@),
                served: old(self)@.served.push(0),
                ..old(self)@
            }),
    {
        let handle: usize = self.services.len();
        self.services.push(Published { pipeline, served: 0 });
        proof {
            assert(self@.guard_sets =~= old(self)@.guard_sets);
            assert(self@.services =~= old(self)@.services.push(pipeline@));
            assert(self@.served =~= old(self)@.served.push(0));
            assert(self@.entries =~= old(self)@.entries);
        }
        handle
    }

    /// Registers `rdef` for the shared service `service`, to be tried after
    /// all earlier registrations. `guards` and `service` are handles that
    /// this registry handed out; while a handle names nothing in this
    /// registry, the registration is eligible for no request. `hint` is kept
    /// with the registration for whoever orders registrations of different
    /// resources; this registry tries them in the order of their arrival.
    pub fn register_service(
        &mut self,
        rdef: ResourceDef,
        guards: Option<usize>,
        service: usize,
        hint: Option<u32>,
    )
        ensures
            final(self)@ == (AppServiceView {
                entries: old(self)@.entries.push(
                    RegistrationView {
                        rdef: rdef@,
                        guards: match guards {
                            Some(g) => Some(g as int),
                            None => None,
                        },
                        service: service as int,
                        hint,
                    },
                ),
                ..old(self)@
            }),
    {
        let entry = Registration { rdef, guards, service, hint };
        self.entries.push(entry);
        proof {
            assert(self@.guard_sets =~= old(self)@.guard_sets);
            assert(self@.services =~= old(self)@.services);
            assert(self@.served =~= old(self)@.served);
            assert(self@.entries =~= old(self)@.entries.push(entry@));
        }
    }

    /// The number of registrations.
    pub fn len(&self) -> (count: usize)
        ensures
            count == self@.entries.len(),
    {
        self.entries.len()
    }

    /// The number of shared services.
    pub fn service_count(&self) -> (count: usize)
        ensures
            count == self@.services.len(),
    {
        self.services.len()
    }

    /// The pattern of registration `k`.
    pub fn pattern(&self, k: usize) -> (pattern: Option<&str>)
        ensures
            match pattern {
                Some(p) => k < self@.entries.len() && p@ == self@.entries[k as int].rdef.pattern,
                None => k >= self@.entries.len(),
            },
    {
        if k < self.entries.len() {
            Some(self.entries[k].rdef.pattern())
        } else {
            None
        }
    }

    /// The name of registration `k`.
    pub fn name(&self, k: usize) -> (name: Option<&str>)
        ensures
            match name {
                Some(n) => k < self@.entries.len() && n@ == self@.entries[k as int].rdef.name,
                None => k >= self@.entries.len(),
            },
    {
        if k < self.entries.len() {
            Some(self.entries[k].rdef.name())
        } else {
            None
        }
    }

    /// The handle of the service that registration `k` is bound to.
    pub fn service(&self, k: usize) -> (handle: Option<usize>)
        ensures
            match handle {
                Some(s) => k < self@.entries.len() && s == self@.entries[k as int].service,
                None => k >= self@.entries.len(),
            },
    {
        if k < self.entries.len() {
            Some(self.entries[k].service)
        } else {
            None
        }
    }

    /// The handle of the guard set of registration `k`, if it has one.
    pub fn guards(&self, k: usize) -> (handle: Option<usize>)
        ensures
            match handle {
                Some(g) => k < self@.entries.len() && self@.entries[k as int].guards == Some(
                    g as int,
                ),
                None => k >= self@.entries.len() || self@.entries[k as int].guards is None,
            },
    {
        if k < self.entries.len() {
            self.entries[k].guards
        } else {
            None
        }
    }

    /// The number of requests that the shared service `handle` has answered.
    pub fn served(&self, handle: usize) -> (count: Option<u64>)
        ensures
            match count {
                Some(n) => handle < self@.served.len() && n == self@.served[handle as int],
                None => handle >= self@.served.len(),
            },
    {
        if handle < self.services.len() {
            Some(self.services[handle].served)
        } else {
            None
        }
    }

    /// Whether registration `k` is eligible for `request`.
    fn fits(&self, k: usize, request: &Request) -> (eligible: bool)
        requires
            k < self@.entries.len(),
        ensures
            eligible == self@.entry_fits(k as int, request@),
    {
        let entry = &self.entries[k];
        assert(self@.entries[k as int] == entry@);
        if entry.service >= self.services.len() {
            return false;
        }
        assert(self@.services[entry.service as int] == self.services@[entry.service as int].pipeline@);
        if !self.services[entry.service].pipeline.is_ready() {
            return false;
        }
        if !entry.rdef.is_match(request.path()) {
            return false;
        }
        match entry.guards {
            Some(g) => {
                if g >= self.guard_sets.len() {
                    return false;
                }
                assert(self@.guard_sets[g as int] == guard_views(self.guard_sets@[g as int]@));
                check_all(&self.guard_sets[g], request)
            },
            None => true,
        }
    }

    /// Answers `request` with the service of the first eligible
    /// registration, which counts the request; where no registration is
    /// eligible, with the default handler, or with `404`.
    pub fn call(&mut self, request: &Request) -> (response: Response)
        ensures
            response@ == old(self)@.reply(request@),
            final(self)@ == old(self)@.after(request@),
    {
        let mut k: usize = 0;
        while k < self.entries.len()
            invariant
                k <= self.entries.len(),
                *self == *old(self),
                self@.first_entry(request@, 0) == self@.first_entry(request@, k as int),
            decreases self.entries.len() - k,
        {
            if self.fits(k, request) {
                let s: usize = self.entries[k].service;
                assert(self@.entries[k as int].service == s);
                assert(self@.services[s as int] == self.services@[s as int].pipeline@);
                let response = self.services[s].pipeline.call(request, &self.data);
                let count: u64 = self.services[s].served;
                if count < u64::MAX {
                    self.services[s].served = count + 1;
                }
                proof {
                    let before = old(self)@;
                    assert(self@.guard_sets =~= before.guard_sets);
                    assert(self@.services =~= before.services);
                    assert(self@.served =~= before.served.update(s as int, bumped(count)));
                    assert(self@.entries =~= before.entries);
                }
                return response;
            }
            k = k + 1;
        }
        match self.default {
            Some(handler) => handler.call(request, &self.data),
            None => Response::new(STATUS_NOT_FOUND),
        }
    }
}

} // verus!
