//! Decoders for the tile-based chunk containers of an open-world game's
//! terrain, map and texture files.
//!
//! Every file is a flat sequence of chunks (a four-byte tag stored in reverse
//! order, a little-endian length and a payload). The terrain tile chunk is
//! decoded with the help of flags that come from the file header and from the
//! tile's own texture layer list.
//!
//! - `chunk` reads chunks; `files` walks whole terrain files and world
//!   tables, keeping what decodes and recording what does not.
//! - `tile` decodes a terrain tile: its header, heights (`height`), normals,
//!   texture layers, references, blend masks (`alpha`) and liquid (`liquid`).
//! - `records` decodes the flat record chunks; `blp` and `bls` decode
//!   textures and shader containers.
//!
//! Single-precision values are carried as their bits.
pub mod alpha;
pub mod blp;
pub mod bls;
pub mod bytes;
pub mod chunk;
pub mod error;
pub mod files;
pub mod height;
pub mod liquid;
pub mod records;
pub mod shared;
pub mod strings;
pub mod tile;
