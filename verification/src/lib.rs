//! Core logic of a multi-tenant blog server: route table, sessions, RPC rules,
//! site bootstrap and host dispatch, and the prerender/hydrate protocol.

pub mod backstage;
pub mod config;
pub mod db;
pub mod dispatch;
pub mod document;
pub mod hash;
pub mod http;
pub mod names;
pub mod page;
pub mod post;
pub mod request;
pub mod route;
pub mod rpc;
pub mod server;
pub mod session;
pub mod site;
pub mod snapshot;
pub mod text;
pub mod themes;
