//! A minimal user-list service core: a verified model of a single `users`
//! table together with the pure request/response logic of the HTTP surface
//! that serves it (JSON list/create endpoints and two HTML views).
//!
//! All I/O — the HTTP listener, the connection pool, the database file —
//! lives outside this crate; the functions here take plain values (request
//! bodies, fetched rows, assigned keys) and produce exact response bytes.

pub mod html;
pub mod json;
pub mod request;
pub mod service;
pub mod store;
pub mod text;
pub mod user;
