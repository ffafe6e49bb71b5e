//! Handlers: what a route, or a resource's fallback, answers with.

use crate::data::Extensions;
use crate::http::{
    bare_response, Request, RequestView, Response, ResponseView, STATUS_INTERNAL_SERVER_ERROR,
    STATUS_OK,
};
use vstd::prelude::*;

verus! {

/// A handler, given by the way it answers.
#[derive(Clone, Copy, Debug, PartialEq, Eq, Structural)]
pub enum Handler {
    /// Answers every request with this status, no headers and no body.
    Respond(u16),
    /// Extracts the scoped value stored under this type key and answers
    /// `200` with the value as body; answers `500` where no such value is
    /// in scope.
    Extract(u64),
}

impl Handler {
    /// The answer to `request` when `data` is the scoped data in reach.
    pub open spec fn reply(self, request: RequestView, data: Map<u64, Seq<char>>) -> ResponseView {
        match self {
            Handler::Respond(status) => bare_response(status),
            Handler::Extract(key) => if data.contains_key(key) {
                ResponseView { body: data[key], ..bare_response(STATUS_OK) }
            } else {
                bare_response(STATUS_INTERNAL_SERVER_ERROR)
            },
        }
    }

    /// Answers `request`, extracting from `data`.
    pub fn call(&self, request: &Request, data: &Extensions) -> (response: Response)
        ensures
            response@ == self.reply(request@, data@),
    {
        match self {
            Handler::Respond(status) => Response::new(*status),
            Handler::Extract(key) => match data.get(*key) {
                Some(value) => Response::with_body(STATUS_OK, value.as_str()),
                None => Response::new(STATUS_INTERNAL_SERVER_ERROR),
            },
        }
    }
}

} // verus!
