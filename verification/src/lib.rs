//! Encoder for V3M static-mesh files.
//!
//! The crate takes a scene that is already expressed in the frame of each
//! submesh and lays it out as the bytes of a V3M file. Every real number is
//! carried as the bit pattern of an IEEE-754 binary32 value: the encoder
//! compares and copies such values but never does arithmetic on them.

pub mod binary32;
pub mod encoding;
pub mod error;
pub mod scene;
pub mod batch;
pub mod texture;
pub mod render_state;
pub mod geometry;
pub mod bounds;
pub mod submesh;
pub mod file;
