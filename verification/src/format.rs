//! Scene description formats.
pub mod sbt;
pub mod sbt2;
