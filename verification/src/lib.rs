//! The verified core of a ray tracer: fixed-point numbers, a section
//! stopwatch, texture archive names, the value layer of the `.ray` scene
//! readers and the line bookkeeping of the renderer.
pub mod download;
pub mod engine;
pub mod error;
pub mod fixedpoint;
pub mod fixedpoint_laws;
pub mod format;
pub mod shift_lemmas;
pub mod timeslice;
