//! Client-side signing core for an S3-compatible object-storage HTTP API.
//!
//! The heart of the crate is the request-signing subsystem: building a
//! deterministic string-to-sign from the HTTP method, a canonicalized set of
//! request headers and a canonicalized resource path, computing an
//! HMAC-SHA1 signature over it, and attaching the result as an
//! `Authorization` header.  Date headers are normalized on the way and
//! query parameters are filtered through a fixed whitelist of sub-resource
//! names before they may enter the signed resource.

pub mod auth;
pub mod client;
pub mod config;
pub mod datetime;
pub mod error;
pub mod headers;
pub mod model;
pub mod provider;
pub mod strutil;
