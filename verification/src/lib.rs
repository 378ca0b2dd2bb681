//! Reconstruction of a surface mesh from a stack of grayscale slices: volume
//! assembly, separable smoothing, histogram threshold selection and the
//! listing of mesh triangles, together with the naming and clean-up rules of
//! the converter built on them.
//!
//! The library computes on integers and on samples of a type the caller
//! chooses; arithmetic on samples is supplied by the caller as function
//! values.

pub mod analyze;
pub mod cleanup;
pub mod export;
pub mod filename;
pub mod grouping;
pub mod mesh;
pub mod metadata;
pub mod ops;
pub mod smooth;
pub mod text;
pub mod threshold;
pub mod volume;
