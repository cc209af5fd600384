//! A live network-traffic capture core: it reconstructs HTTP request
//! messages from TCP payloads and drives a cooperative capture engine whose
//! status and recovered requests are handed to optional delivery channels.
pub mod engine;
pub mod frame;
pub mod http;
pub mod platform;
pub mod text;
