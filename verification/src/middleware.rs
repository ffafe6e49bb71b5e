//! Middleware: layers that wrap a resource's dispatcher.

use crate::http::{Request, RequestView, Response, ResponseView};
use vstd::prelude::*;

verus! {

/// What a layer is, as plain values.
pub enum MiddlewareView {
    RequestHeader(Seq<char>, Seq<char>),
    ResponseHeader(Seq<char>, Seq<char>),
}

impl MiddlewareView {
    /// The request that the layer hands to what it wraps.
    pub open spec fn before(self, request: RequestView) -> RequestView {
        match self {
            MiddlewareView::RequestHeader(name, value) => RequestView {
                headers: request.headers.insert(name, value),
                ..request
            },
            MiddlewareView::ResponseHeader(_, _) => request,
        }
    }

    /// The response that the layer makes of the response it gets back.
    pub open spec fn after(self, response: ResponseView) -> ResponseView {
        match self {
            MiddlewareView::RequestHeader(_, _) => response,
            MiddlewareView::ResponseHeader(name, value) => ResponseView {
                headers: response.headers.insert(name, value),
                ..response
            },
        }
    }
}

/// A layer around a dispatcher. It may rewrite the request on the way in
/// and the response on the way out; it cannot change the response's shape.
pub enum Middleware {
    /// Sets the header `name` to `value` on the request before delegating.
    RequestHeader { name: String, value: String },
    /// Sets the header `name` to `value` on the response it gets back.
    ResponseHeader { name: String, value: String },
}

impl View for Middleware {
    type V = MiddlewareView;

    open spec fn view(&self) -> MiddlewareView {
        match self {
            Middleware::RequestHeader { name, value } => MiddlewareView::RequestHeader(
                name@,
                value@,
            ),
            Middleware::ResponseHeader { name, value } => MiddlewareView::ResponseHeader(
                name@,
                value@,
            ),
        }
    }
}

/// The views of a sequence of layers, in order.
pub open spec fn middleware_views(layers: Seq<Middleware>) -> Seq<MiddlewareView> {
    Seq::new(layers.len(), |i: int| layers[i]@)
}

impl Middleware {
    /// A layer that sets the header `name` to `value` on each request.
    pub fn request_header(name: &str, value: &str) -> (layer: Middleware)
        ensures
            layer@ == MiddlewareView::RequestHeader(name@, value@),
    {
        Middleware::RequestHeader { name: name.to_owned(), value: value.to_owned() }
    }

    /// A layer that sets the header `name` to `value` on each response.
    pub fn response_header(name: &str, value: &str) -> (layer: Middleware)
        ensures
            layer@ == MiddlewareView::ResponseHeader(name@, value@),
    {
        Middleware::ResponseHeader { name: name.to_owned(), value: value.to_owned() }
    }

    /// Rewrites `request` on its way in.
    pub fn on_request(&self, request: &mut Request)
        ensures
            final(request)@ == self@.before(old(request)@),
    {
        match self {
            Middleware::RequestHeader { name, value } => {
                request.set_header(name.as_str(), value.as_str());
            },
            Middleware::ResponseHeader { .. } => {},
        }
    }

    /// Rewrites `response` on its way out.
    pub fn on_response(&self, response: &mut Response)
        ensures
            final(response)@ == self@.after(old(response)@),
    {
        match self {
            Middleware::RequestHeader { .. } => {},
            Middleware::ResponseHeader { name, value } => {
                response.set_header(name.as_str(), value.as_str());
            },
        }
    }
}

} // verus!
