//! A verified request-validation and error-taxonomy pipeline for a small
//! users CRUD service.
//!
//! The library covers the logic of the service: declarative field validation,
//! a closed error taxonomy rendered to HTTP status/JSON pairs, a typed body
//! extractor, and the soft-delete-aware user command handlers over an
//! in-memory table. I/O (HTTP serving, configuration loading, logging sinks)
//! lives outside the library.

pub mod config;
pub mod error;
pub mod extract;
pub mod models;
pub mod users;
pub mod validation;
