//! The logic of the native Trino / Presto connector.
//!
//! A host hands the connector requests in JSON and gets answers in JSON. Without
//! a driver the connector tells what it is and refuses the rest ([`stub`]); with
//! the driver it opens and closes connections, runs statements page by page and
//! describes the catalog ([`driver`]). Nothing here does I/O: where a request
//! needs the coordinator, the driver says what to send and is told how it went.

pub mod abi;
pub mod catalog;
pub mod codec;
pub mod config;
pub mod connections;
pub mod driver;
pub mod entries;
pub mod http;
pub mod json;
pub mod statement;
pub mod stub;
pub mod text;
