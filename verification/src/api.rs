//! What the HTTP adapter computes
//!
//! The adapter answers a batch of coordinates with a CSV text. This module
//! holds the part of that work that is computation: which coordinates are
//! read, where their values go, and how the answer is written.

pub mod models;
pub mod batch;

pub use models::ErrorResponse;
