//! Management core for a local proxy daemon: subscription feed parsing,
//! server catalog reconciliation, outbound synthesis and process supervision.
pub mod errors;
pub mod text;
pub mod codec;
pub mod config;
pub mod server;
pub mod catalog;
pub mod feed;
pub mod process;
pub mod settings;
pub mod workdir;
