//! The parts of a small model viewer that decide and compute.
//!
//! A Wavefront-style text description is parsed into raw arrays
//! (`wavefront`), its faces are cut into triangle fans and the corners are
//! merged into an indexed triangle mesh, which is measured by an axis-aligned
//! bounding box (`mesh`, `boundingbox`). Beside that stand the decoder of
//! the texture image (`truevision`), the reader of shader sources and the
//! table of a program's uniform variables (`shader`), and the meaning of the
//! viewer's keys (`controls`).
//!
//! Numbers are carried as IEEE 754 binary32 bit patterns (`scalar`), so that
//! every function here works on integers only; turning a literal into a bit
//! pattern is left to the caller of the parser. Texts are read as their
//! UTF-8 bytes (`text`, `number`).

pub mod boundingbox;
pub mod commands;
pub mod controls;
pub mod mesh;
pub mod number;
pub mod scalar;
pub mod shader;
pub mod text;
pub mod truevision;
pub mod utils;
pub mod wavefront;
