//! Core of a building-inspection photo organizer: images carrying GPS
//! metadata are clustered into buildings by geodesic distance, assigned to
//! compass-facing facades, and relocated into a derived folder tree while
//! statistics and per-file failures are accumulated.

pub mod cluster;
pub mod detect;
pub mod exifdata;
pub mod exiftool;
pub mod facade;
pub mod flatgroup;
pub mod geo;
pub mod materialize;
pub mod parse;
pub mod paths;
pub mod pipeline;
pub mod report;
pub mod sanitize;
pub mod scan;
pub mod stats;

pub use geo::Location;
