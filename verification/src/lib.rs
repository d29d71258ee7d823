//! A small function-as-a-service runtime: it bundles a TypeScript/JavaScript
//! project into one self-contained script, resolves requests to handlers by
//! virtual host and route pattern, hot-swaps code and routes together, and
//! marshals requests and responses across the host/engine boundary as JSON
//! values. Routing, bundling, marshaling and all error mapping are verified;
//! the I/O shell around them lives outside the library.

pub mod bundler;
pub mod cli;
pub mod codec;
pub mod error;
pub mod model;
pub mod pool;
pub mod registry;
pub mod router;
pub mod text;
pub mod watch;
