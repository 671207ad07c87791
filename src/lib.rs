//! Routing rules, CONNECT request handling and proxy-node link decoding for a
//! small HTTP tunnelling proxy.
pub mod bindings;
pub mod config;
pub mod links;
pub mod models;
pub mod request;
pub mod rules;
pub mod text;
