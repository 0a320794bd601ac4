//! Composable byte-level input for media streams, with machine-checked contracts.
//!
//! All readers and streams that operate on bytes implement the [`ReadBytes`] trait. A source of
//! media bytes, such as a file, an in-memory buffer, or a network stream, implements
//! [`MediaSource`].

pub mod boxed_laws;
pub mod buffered;
pub mod chunk;
pub mod endian;
pub mod error;
pub mod read_bytes;
pub mod read_laws;
pub mod seek;
pub mod slice;
pub mod source;
pub mod stream;

pub use buffered::{FiniteStream, SeekBuffered};
pub use error::{map_embedded_io_error, MediaError, MediaErrorKind, MediaResult};
pub use read_bytes::ReadBytes;
pub use seek::SeekFrom;
pub use slice::IoSliceMut;
pub use source::{EmbeddedIoSource, MediaSource, ReadOnlySource};
