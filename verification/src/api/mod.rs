//! Published N3FJP API 2.2: TCP 1100, CMD records, CRLF writes.
pub mod catalog;
pub mod command;
pub mod packet;
pub mod entry;
pub mod session;
