//! I/O primitives: seekable byte sources, byte order, buffered reading.

pub mod traits;
pub mod cursor;
pub mod byte_order;
pub mod buffer;

pub use traits::{SeekFrom, SeekableReader};
pub use cursor::Cursor;
pub use byte_order::ByteOrder;
pub use buffer::BufferedReader;
