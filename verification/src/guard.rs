//! Guards: predicates that decide whether a request may reach a route or a
//! resource.

use crate::http::{Method, Request, RequestView};
use vstd::prelude::*;

verus! {

/// What a guard is, as plain values.
pub enum GuardView {
    Method(Method),
    Header(Seq<char>, Seq<char>),
    Not(Box<GuardView>),
    Any(Seq<GuardView>),
    All(Seq<GuardView>),
}

impl GuardView {
    /// Whether the guard lets the request pass. A guard over several guards
    /// counts through them; `lemma_accepts_any` and `lemma_accepts_all` say
    /// the same with quantifiers.
    pub open spec fn accepts(self, request: RequestView) -> bool
        decreases self, 0nat,
    {
        match self {
            GuardView::Method(method) => request.method == method,
            GuardView::Header(name, value) => request.headers.contains_key(name)
                && request.headers[name] == value,
            GuardView::Not(inner) => !inner.accepts(request),
            GuardView::Any(options) => some_accept(options, options.len(), request),
            GuardView::All(parts) => !some_reject(parts, parts.len(), request),
        }
    }
}

/// Whether one of the first `n` guards lets the request pass.
pub open spec fn some_accept(guards: Seq<GuardView>, n: nat, request: RequestView) -> bool
    decreases guards, n,
{
    0 < n <= guards.len() && (guards[n - 1].accepts(request) || some_accept(
        guards,
        (n - 1) as nat,
        request,
    ))
}

/// Whether one of the first `n` guards stops the request.
pub open spec fn some_reject(guards: Seq<GuardView>, n: nat, request: RequestView) -> bool
    decreases guards, n,
{
    0 < n <= guards.len() && (!guards[n - 1].accepts(request) || some_reject(
        guards,
        (n - 1) as nat,
        request,
    ))
}

/// Whether every guard of the set lets the request pass. The empty set lets
/// every request pass.
pub open spec fn all_accept(guards: Seq<GuardView>, request: RequestView) -> bool {
    forall|i: int| 0 <= i < guards.len() ==> #[trigger] guards[i].accepts(request)
}

/// A predicate over requests.
pub enum Guard {
    /// Passes requests with the given method.
    Method(Method),
    /// Passes requests whose header `name` is set to `value`.
    Header { name: String, value: String },
    /// Passes what the inner guard stops.
    Not(Box<Guard>),
    /// Passes what at least one of the guards passes.
    Any(Vec<Guard>),
    /// Passes what all of the guards pass.
    All(Vec<Guard>),
}

/// What `guard` is, as plain values.
pub open spec fn guard_view(guard: Guard) -> GuardView
    decreases guard,
{
    match guard {
        Guard::Method(method) => GuardView::Method(method),
        Guard::Header { name, value } => GuardView::Header(name@, value@),
        Guard::Not(inner) => GuardView::Not(Box::new(guard_view(*inner))),
        Guard::Any(options) => GuardView::Any(guard_views(options@)),
        Guard::All(parts) => GuardView::All(guard_views(parts@)),
    }
}

/// The views of a sequence of guards, in order.
pub open spec fn guard_views(guards: Seq<Guard>) -> Seq<GuardView>
    decreases guards,
{
    Seq::new(
        guards.len(),
        |i: int|
            if 0 <= i < guards.len() {
                guard_view(guards[i])
            } else {
                GuardView::Any(Seq::empty())
            },
    )
}

impl View for Guard {
    type V = GuardView;

    open spec fn view(&self) -> GuardView {
        guard_view(*self)
    }
}

impl Guard {
    /// Whether the guard lets `request` pass.
    pub fn check(&self, request: &Request) -> (pass: bool)
        ensures
            pass == self@.accepts(request@),
        decreases self,
    {
        match self {
            Guard::Method(method) => request.get_method() == *method,
            Guard::Header { name, value } => request.headers().has(name.as_str(), value.as_str()),
            Guard::Not(inner) => !inner.check(request),
            Guard::Any(options) => check_any(options, request),
            Guard::All(parts) => {
                proof {
                    lemma_accepts_all(guard_views(parts@), request@);
                }
                check_all(parts, request)
            },
        }
    }

    /// A guard that passes `GET` requests.
    pub fn get() -> (guard: Guard)
        ensures
            guard@ == GuardView::Method(Method::Get),
    {
        Guard::Method(Method::Get)
    }

    /// A guard that passes `POST` requests.
    pub fn post() -> (guard: Guard)
        ensures
            guard@ == GuardView::Method(Method::Post),
    {
        Guard::Method(Method::Post)
    }

    /// A guard that passes `PUT` requests.
    pub fn put() -> (guard: Guard)
        ensures
            guard@ == GuardView::Method(Method::Put),
    {
        Guard::Method(Method::Put)
    }

    /// A guard that passes `DELETE` requests.
    pub fn delete() -> (guard: Guard)
        ensures
            guard@ == GuardView::Method(Method::Delete),
    {
        Guard::Method(Method::Delete)
    }

    /// A guard that passes requests whose header `name` is set to `value`.
    pub fn header(name: &str, value: &str) -> (guard: Guard)
        ensures
            guard@ == GuardView::Header(name@, value@),
    {
        Guard::Header { name: name.to_owned(), value: value.to_owned() }
    }
}

/// Whether at least one guard of `guards` lets `request` pass; stops at the
/// first one that does.
pub fn check_any(guards: &Vec<Guard>, request: &Request) -> (pass: bool)
    ensures
        pass == GuardView::Any(guard_views(guards@)).accepts(request@),
    decreases guards,
{
    let mut i: usize = 0;
    while i < guards.len()
        invariant
            i <= guards.len(),
            forall|k: int| 0 <= k < i ==> !(#[trigger] guard_views(guards@)[k]).accepts(request@),
        decreases guards.len() - i,
    {
        if guards[i].check(request) {
            proof {
                let views = guard_views(guards@);
                assert(views[i as int].accepts(request@));
                lemma_accepts_any(views, request@);
            }
            return true;
        }
        assert(guard_views(guards@)[i as int] == guards@[i as int]@);
        i = i + 1;
    }
    proof {
        lemma_accepts_any(guard_views(guards@), request@);
    }
    false
}

/// Whether every guard of `guards` lets `request` pass; stops at the first
/// one that does not.
pub fn check_all(guards: &Vec<Guard>, request: &Request) -> (pass: bool)
    ensures
        pass == all_accept(guard_views(guards@), request@),
    decreases guards,
{
    let mut i: usize = 0;
    while i < guards.len()
        invariant
            i <= guards.len(),
            forall|k: int| 0 <= k < i ==> (#[trigger] guard_views(guards@)[k]).accepts(request@),
        decreases guards.len() - i,
    {
        if !guards[i].check(request) {
            assert(guard_views(guards@)[i as int] == guards@[i as int]@);
            return false;
        }
        assert(guard_views(guards@)[i as int] == guards@[i as int]@);
        i = i + 1;
    }
    true
}

/// One of the first `n` guards accepts exactly if there is an index below
/// `n` whose guard accepts; one rejects exactly if there is one whose guard
/// rejects.
pub proof fn lemma_some_accept(guards: Seq<GuardView>, n: nat, request: RequestView)
    requires
        n <= guards.len(),
    ensures
        some_accept(guards, n, request) == (exists|i: int|
            0 <= i < n && #[trigger] guards[i].accepts(request)),
        some_reject(guards, n, request) == (exists|i: int|
            0 <= i < n && !#[trigger] guards[i].accepts(request)),
    decreases n,
{
    if n > 0 {
        lemma_some_accept(guards, (n - 1) as nat, request);
        if guards[n - 1].accepts(request) {
            assert(0 <= n - 1 < n && guards[n - 1].accepts(request));
        } else {
            assert(0 <= n - 1 < n && !guards[n - 1].accepts(request));
        }
    }
}

/// A guard over `options` passes a request exactly if one of them does.
pub proof fn lemma_accepts_any(options: Seq<GuardView>, request: RequestView)
    ensures
        GuardView::Any(options).accepts(request) == (exists|i: int|
            0 <= i < options.len() && #[trigger] options[i].accepts(request)),
{
    lemma_some_accept(options, options.len(), request);
}

/// A guard over `parts` passes a request exactly if all of them do.
pub proof fn lemma_accepts_all(parts: Seq<GuardView>, request: RequestView)
    ensures
        GuardView::All(parts).accepts(request) == all_accept(parts, request),
{
    lemma_some_accept(parts, parts.len(), request);
}

} // verus!
