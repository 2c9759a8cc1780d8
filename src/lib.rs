//! Voxel chunk storage and block registry.
//!
//! A chunk is a dense 64 x 64 x 64 grid of packed 16-bit block identifiers,
//! addressed through bounds-checked local positions. The block registry
//! resolves identifiers to declarations (group, name, colour, transparency),
//! and the visibility query derives which faces of each occupied cell are
//! exposed.
pub mod block;
pub mod chunk;
pub mod registry;
pub mod visibility;
