//! Bundles a batch of files into one zip archive held in memory, maps the
//! outcome of a request to an HTTP reply, and checks the server's settings.
pub mod request;
pub mod zip_io;
pub mod builder;
pub mod reply;
pub mod config;
