//! ZIP containers that hold one entry, compressed with DEFLATE as it is
//! written, with ZIP64 sizes and offsets throughout.
//!
//! The payload comes in pieces and its size is not known in advance. So the
//! encoder writes a local header of fixed shape before the first byte of
//! payload, streams the payload through the compressor, and in the end
//! writes the checksum and the sizes over their placeholders and appends the
//! directory. The decoder reads what this encoder wrote, and nothing else.
//!
//! - [`common`]: the records of the format and their encodings.
//! - [`container`]: the layout of a container, and the builders of its parts.
//! - [`laws`]: what holds of every container.
//! - [`writer`], [`reader`]: the encoder and the decoder.
//! - [`crc32`], [`le`]: the checksum, and little-endian fields.
//! - [`deflate`]: the compressor and the decompressor of the `flate2` crate.
//!
//! The library works on bytes in memory and never touches a file. A caller
//! that streams to a file takes the encoder's output away as it comes.

pub mod common;
pub mod container;
pub mod crc32;
pub mod deflate;
pub mod error;
pub mod laws;
pub mod le;
pub mod reader;
pub mod writer;

pub use crate::error::ZipError;
pub use crate::reader::{decode, Reader};
pub use crate::writer::{encode, Finished, Writer};
