//! A request-routing resource that answers under its path pattern both with
//! and without a trailing slash.
//!
//! A [`resource::NormalizedResource`] is configured with guards, routes,
//! scoped data, middleware and a default handler. Registering it compiles the
//! configuration into one dispatcher and publishes that dispatcher under two
//! patterns: the pattern with its slash runs merged, and the same pattern with
//! its trailing slash toggled.

pub mod data;
pub mod guard;
pub mod handler;
pub mod http;
pub mod middleware;
pub mod path;
pub mod pattern;
pub mod registry;
pub mod resource;
pub mod route;
pub mod service;
