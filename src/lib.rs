//! Voxel chunks and the generation of their visible-face meshes.

pub mod chunk;
pub mod direction;
pub mod mesh;
pub mod mesh_lemmas;
pub mod primitives;
pub mod settings;
