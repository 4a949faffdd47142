//! An authenticating forward proxy for embedded browser views, and the
//! services around it.
//!
//! The proxy authenticates every request with the credentials of a registered
//! browser context, rewrites targets on loopback hosts into the cloud
//! hostname of the context's route, and decides how the request is served:
//! forwarded, upgraded or tunnelled. Beside it stand a proxy that finds its
//! upstream by workspace, a bridge between web sockets and a TCP server, the
//! services of a sandbox, and the chat with an agent on the terminal. The
//! modules hold the decisions and the data they work on; sockets, files and
//! the terminal are left to the caller.

pub mod text;
pub mod codec;
pub mod types;
pub mod route;
pub mod loopback;
pub mod rewrite;
pub mod registry;
pub mod headers;
pub mod response;
pub mod auth;
pub mod handlers;
pub mod server;
pub mod workspace_proxy;
pub mod novnc_proxy;
pub mod listen;
pub mod markdown;
pub mod acp_client;
pub mod api_proxy;
pub mod attach;
pub mod chat_input;
pub mod chat_view;
pub mod rest;
pub mod stream;
pub mod templates;
