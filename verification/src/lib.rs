//! A static asset server's decision logic: request parsing, routing, content
//! negotiation, connection and certificate lifecycles, and worker scheduling.

pub mod acme;
pub mod cert;
pub mod coro_util;
pub mod fileserver;
pub mod http;
pub mod mappings;
pub mod resource;
pub mod table;
pub mod tcp_util;
pub mod text;
pub mod worker;
