//! Verified core of a set of Prometheus exporters for PostgreSQL, Redis and
//! MongoDB, with the pieces an Axum integration needs.

pub mod catalog;
pub mod collector;
pub mod http;
pub mod info_parser;
pub mod mongo;
pub mod number;
pub mod options;
pub mod postgres;
pub mod redis;
pub mod state;
pub mod text;
