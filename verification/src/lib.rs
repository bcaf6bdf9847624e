//! Search for small polygons whose vertex visibility has a high
//! VC-dimension.
//!
//! The vertices of a simple polygon form a set system: each vertex stands
//! for the set of vertices that it sees. This crate holds the parts of an
//! experiment on that system that need no geometry:
//!
//! - [`minimizer`] shrinks a polygon vertex by vertex while a chosen subset
//!   stays shattered, with the geometry behind a probe;
//! - [`profile`] records what is read of a visibility system;
//! - [`classifier`] gives a shattered subset its signature and tells which
//!   polygons are worth keeping, and [`relabelling`] shows that neither
//!   depends on the numbering of the vertices;
//! - [`arguments`] works out the parameters of a run;
//! - [`experiment`] does the bookkeeping from trial to trial.
//!
//! [`decimal`] and [`sorting`] serve the others.

pub mod arguments;
pub mod classifier;
pub mod decimal;
pub mod experiment;
pub mod minimizer;
pub mod profile;
pub mod relabelling;
pub mod sorting;
