//! Pipeline core for generating a cuboidal polycrystalline specimen model:
//! tessellate, regularize (with a geometry-correction pass), and mesh.
//!
//! Each stage describes an invocation of an external generator or mesher as a
//! typed command specification and hands intermediate artifacts over through a
//! fixed cache directory. This crate holds the stage-state model, the
//! argument-translation rules, the persisted-configuration codec and the
//! decision logic of the geometry-correction pass; the surrounding binary
//! performs the file reads and writes and spawns the external processes.

pub mod cache;
pub mod command;
pub mod errors;
pub mod config;
pub mod geometry;
pub mod pipeline;
pub mod stages;
pub mod text;
