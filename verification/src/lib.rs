//! Core logic of the glyph services: hexadecimal identifier encoding,
//! time-derived identifier generation, the glyph merge engine, and the
//! in-memory glyph store.

pub mod hex;
pub mod idgen;
pub mod merge;
pub mod store;
