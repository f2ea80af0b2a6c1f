//! Merged meshes of free-form blocks, which are added and removed as whole blocks.
pub mod agree;
pub mod check;
pub mod gen;
pub mod md;
pub mod meshify;
pub mod update;
