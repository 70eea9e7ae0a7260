//! Definitions of coordinate transformations
//!
//! Coordinates are transformed by an outside collaborator that takes its
//! task as text: the name of a coordinate reference system, or a list of
//! `+key=value` parameters. This module builds those texts.

pub mod custom;
pub mod datum;
pub mod grid;
pub mod epsg;

pub use custom::ProjectionBuilder;
pub use datum::Datum;
pub use grid::{GridShift, GridShiftBuilder};
