//! The verified core of a namespaced vector-search service.
pub mod auth;
pub mod batch;
pub mod bench;
pub mod bench_report;
pub mod cache;
pub mod cachebackend;
pub mod calendar;
pub mod clock;
pub mod codec;
pub mod config;
pub mod cursor;
pub mod error;
pub mod family_ids;
pub mod handlers;
pub mod hash;
pub mod manager;
pub mod metrics;
pub mod namespace;
pub mod operations;
pub mod prom;
pub mod query;
pub mod report;
pub mod result;
pub mod routes;
pub mod rows;
pub mod schema;
pub mod service;
pub mod shared;
pub mod storage_root;
pub mod text;
pub mod vector;

