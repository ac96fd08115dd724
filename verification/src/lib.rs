//! A static-file request handler: resolves a request path safely under a
//! configured root directory and decides the HTTP response (not-found,
//! redirect, index-file lookup, or file streaming with headers).

pub mod percent;
pub mod render;
pub mod resolve;
pub mod respond;

pub use resolve::StaticDirServer;
