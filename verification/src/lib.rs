//! Write-only encoder for the NPY binary array format, with an NPZ (zip)
//! container on top.
//!
//! The core encodes scalars, flat vectors, multi-dimensional arrays and
//! text into the fixed-layout NPY format: a magic/version/length preamble
//! padded to a multiple of 64 bytes, followed by raw little-endian element
//! bytes in row-major order.

pub mod array;
pub mod dtype;
pub mod element;
pub mod header;
pub mod npz;
pub mod strings;
pub mod writer;
