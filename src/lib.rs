//! Hide messages in PNG files: chunk types, checksummed chunks, and the
//! whole-file container, with byte-exact parsing and serialization.

pub mod args;
pub mod be32;
pub mod checksum;
pub mod commands;
pub mod chunk;
pub mod chunk_type;
pub mod error;
pub mod png;
pub mod text;

pub use crate::error::PngError;
pub use crate::chunk_type::ChunkType;
pub use crate::chunk::{Chunk, ChunkView};
pub use crate::png::Png;
pub use crate::args::{App, Commands, DecodeArgs, EncodeArgs, PrintArgs, RemoveArgs};
pub use crate::commands::{decode, encode, print_chunks, remove};
