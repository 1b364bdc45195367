//! N3FJP station networking, based on captured traffic (not the application API).
pub mod message;
pub mod codec;
pub mod session;
pub mod roundtrip;
