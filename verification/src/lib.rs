//! A request-serving host that runs user-supplied route handlers inside an
//! embedded, single-threaded script engine, behind an asynchronous front end.
//!
//! The library holds the host-side orchestration: the JSON value model shared
//! by every component, the route table a worker registers at bootstrap, the
//! worker-pool dispatch discipline, the shared result cache, and the SQL
//! parameter-binding and row-decoding rules. The script engine, the HTTP
//! transport and the database driver are external collaborators: they run
//! outside the library and exchange plain values with it.

pub mod cache;
pub mod json;
pub mod pool;
pub mod routes;
pub mod sql;
pub mod sqljson;
pub mod worker;
