//! A hash-indexed catalog of song metadata, built once from a list of raw
//! records and then served read-only.

pub mod boundary;
pub mod cache;
pub mod catalog;
pub mod keyed;
pub mod model;
pub mod query;
