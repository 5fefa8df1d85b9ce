//! Planning and bookkeeping for fetching an update manifest, downloading the
//! files it lists, and unpacking the archives among them.

pub mod text;
pub mod decimal;
pub mod models;
pub mod filter;
pub mod json;
pub mod parser;
pub mod endpoint;
pub mod control;
pub mod transfer;
pub mod retry;
pub mod whitespace;
pub mod xml;
pub mod whitelist;
pub mod unzip;
pub mod process;
pub mod checksum;
