//! Dispatch core of a minimalist HTTP server framework.
//!
//! The crate builds a routing table from declared routes (including scoped
//! groups and RESTful resource sets), resolves an incoming method and path to
//! an ordered middleware chain plus captured path parameters, drives that
//! chain in onion order, and decodes the raw captures into typed values.

pub mod context;
pub mod error;
pub mod inflect;
pub mod matcher;
pub mod method;
pub mod middleware;
pub mod params;
pub mod paths;
pub mod resources;
pub mod response;
pub mod router;
pub mod serve;
pub mod shared;
pub mod text;
pub mod trek;
