//! Reading FlexBuffers: a schemaless, self-describing binary format whose
//! values are addressed by little-endian offsets that always point backwards.
//!
//! Every reader in this crate checks each address and length against the
//! buffer before it touches a byte, and each operation states, over the bytes
//! of the buffer, which value or which error it gives back.
pub mod bitwidth;
pub mod flexbuffer_type;
pub mod reader;

pub use bitwidth::BitWidth;
pub use flexbuffer_type::FlexBufferType;
pub use reader::Error as ReaderError;
pub use reader::{
    Blob, KeyIterator, MapReader, MapReaderIndexer, ReadLE, Reader, ReaderIterator, VectorReader,
};
