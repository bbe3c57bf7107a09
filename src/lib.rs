//! Builds a seekable table of contents for a gzip-compressed tar archive:
//! resumable inflate checkpoints, per-entry tar metadata, and the record of
//! the whole index as its flatbuffer schema receives it.

pub mod digest;
pub mod encode;
pub mod error;
pub mod header;
pub mod ring;
pub mod time;
pub mod zalloc;
pub mod zinfo;
pub mod ztoc;

pub use encode::{entry_to_string, ztoc_record, ZtocRecord};
pub use error::ZtocError;
pub use header::{map_utf8_error, EntryKind};
pub use ring::RingBuffer;
pub use zalloc::align_up;
pub use zinfo::{GZipCheckpoint, GzipZInfoDecompressor, ZInfo};
pub use ztoc::{CompressionInfo, CompressionOffset, FileMetadata, TarEntryFields, Toc, ZToc};
