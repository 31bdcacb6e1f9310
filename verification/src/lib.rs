//! Request-dispatch core of an HTTP middleware framework: a pattern compiler
//! for route templates, an append-only route table with sub-table mounting, a
//! continuation-based middleware chain, and a phase-tagged response whose
//! headers freeze once body emission begins.
//!
//! The chain runs over the concrete [`DefaultContext`] and [`DefaultError`]
//! types rather than over user-supplied context and error type parameters;
//! handlers stay pluggable through the [`Middleware`] trait, and per-request
//! data rides in the context's request, response and body-object fields.

pub mod context;
pub mod cookie;
pub mod dispatch;
pub mod engine;
pub mod error;
pub mod headers;
pub mod http_method;
pub mod pattern;
pub mod request;
pub mod response;
pub mod router;
pub mod static_file_server;
pub mod strutil;
pub mod uploads;
pub mod websocket;

pub use crate::context::DefaultContext;
pub use crate::cookie::Cookie;
pub use crate::cookie::CookieOptions;
pub use crate::cookie::SameSite;
pub use crate::engine::Middleware;
pub use crate::engine::NextHandler;
pub use crate::error::DefaultError;
pub use crate::error::EveError;
pub use crate::http_method::HttpMethod;
pub use crate::request::Request;
pub use crate::response::Response;
pub use crate::router::App;
