//! Carbon: a declarative pipeline runtime.
//!
//! A pipeline is a fixed, linear sequence of steps read from one
//! configuration document. This library holds the rules of that runtime:
//! how a document is normalised into steps, how a message travels from one
//! step to the next, and what each built-in step decides. Every function is
//! verified against its contract, but for the few that call into another
//! crate: each of those says what it takes on trust.
//!
//! - `co2_struct`, `cyml_import`, `quoting`: the configuration document,
//!   its loader, and the law of the loader's preprocessor.
//! - `modules`: what a step is started with, the messages, the trace
//!   identifiers.
//! - `runtime`: the plan of a start, and the routing of messages.
//! - `handlebars_helpers`: the template helpers and the rewrites of
//!   expressions.
//! - `payload`, `switch`, `mock`, `dispatcher`, `request`, `http_server`:
//!   the decisions of the built-in steps.
//! - `json`, `text`, `scan`: structured values, texts, and the search for
//!   expressions.

pub mod co2_struct;
pub mod cyml_import;
pub mod dispatcher;
pub mod handlebars_helpers;
pub mod http_server;
pub mod json;
pub mod mock;
pub mod modules;
pub mod payload;
pub mod quoting;
pub mod request;
pub mod runtime;
pub mod scan;
pub mod switch;
pub mod text;
