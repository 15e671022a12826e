//! Non-blocking HTTP requests for a single-threaded host loop.
//!
//! The host registers request bodies, option sets and JSON documents in
//! handle tables, submits requests to a queue, and collects what has finished
//! once per iteration of its own loop. Between two such ticks, workers
//! perform the requests. Nothing but small integer handles crosses the
//! boundary to the host.
//!
//! This crate holds the decisions: which handle a resource gets, whether a
//! submission is accepted, which finished requests are called back in a
//! tick and which are dropped because they were cancelled. It performs no
//! network work, starts no thread and invokes no callback; whoever drives it
//! does.
//!
//! - [`cell_map`]: the handle table.
//! - [`request`]: requests, option sets and outcomes.
//! - [`queue`]: the request queue, and [`queue_laws`]: what holds of it
//!   whatever happens.
//! - [`module`]: the module's state and its operations on requests,
//!   responses, bodies and option sets; [`json_ops`]: those on JSON
//!   documents.
//! - [`json`], [`json_path`], [`json_array`]: JSON documents, lookups by
//!   name and by dotted path, and arrays.
//! - [`config`]: the start-up settings.
//! - [`errors`], [`messages`]: the errors and the texts they are reported
//!   with.
//! - [`ext`], [`text`]: small helpers for values from the host and for
//!   decimal numbers in texts.
//! - [`validate`]: what the HTTP client library accepts as a URL and as a
//!   header.

pub mod cell_map;
pub mod config;
pub mod errors;
pub mod ext;
pub mod json;
pub mod json_array;
pub mod json_ops;
pub mod json_path;
pub mod messages;
pub mod module;
pub mod queue;
pub mod queue_laws;
pub mod request;
pub mod text;
pub mod validate;
