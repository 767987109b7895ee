//! Multipart upload handling: field classification, incremental reading of
//! scalar and file fields, assembly of one request's fields, validation of
//! the shared secret and the file field, and planning of the final commit.
pub mod config;
pub mod form_data;
pub mod upload;
