//! carbon: a lightweight event-driven web server core.
//!
//! The crate holds the logic of the server: the kernel event records and
//! the bookkeeping of watched descriptors (`io`), the HTTP request and
//! response model (`http`), the per-connection dispatcher (`server`), the
//! service and view traits and the router.
pub mod io;
pub mod server;
pub mod service;
pub mod text;
pub mod http;
pub mod router;
pub mod view;
