//! Request-handling core of the wilayah village lookup service: query-string
//! reading, request validation, response headers, error bodies, nearest-village
//! ordering and database batch planning.

pub mod text;
pub mod params;
pub mod ranking;
pub mod cors;
pub mod models;
pub mod error;
pub mod auth;
pub mod batch;
pub mod handlers;
