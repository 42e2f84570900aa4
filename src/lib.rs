//! A test-fixture HTTP server's request logic: routing, query parsing and
//! header resolution, over a table of payloads loaded once at startup.

pub mod filetype;
pub mod laws;
pub mod query;
pub mod response;
pub mod router;
pub mod split;
