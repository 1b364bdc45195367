//! N3FJP logging protocols and the modem-adapter metadata of QSONaut.
pub mod error;
pub mod number;
pub mod text;
pub mod wire;
pub mod network;
pub mod api;
pub mod udp;
pub mod config;
pub mod adapters;
