//! A configuration-driven HTTP front end.
//!
//! Incoming requests are routed by a composable boolean predicate language
//! over the request path (`Matcher`) to one of several response behaviours
//! (`StaticPage`): a redirect, embedded bytes, a pre-read file, or a
//! reverse-proxy pass-through. A `Config` bundles an ordered list of
//! `Handler`s (first match wins) with fallback pages and a bind address;
//! a `ConfigStore` holds the active `Config` and applies the hot-reload
//! rules: a reload never installs an invalid table, and never changes the
//! bind address of a running server.

pub mod check;
pub mod config;
pub mod errors;
pub mod http;
pub mod matcher;
pub mod page;
pub mod paths;
pub mod regexes;
pub mod store;
