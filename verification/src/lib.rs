//! Request runtime of an application server whose handlers are JavaScript
//! actions: the static-action analyzer and its registry, the route table, the
//! drift record/replay engine, the dispatcher's worker selection, the
//! extension registry and the shaping of action results for the transport.

pub mod actions;
pub mod ast;
pub mod buffer;
pub mod dispatch;
pub mod drift;
pub mod eval;
pub mod extension;
pub mod fast_path;
pub mod fetch;
pub mod json;
pub mod number;
pub mod response;
pub mod route;
pub mod syntax;
pub mod text;
pub mod worker;
