//! A read-only reader for Realm database files.
//!
//! The reader works on the bytes of a file: it never changes them and never
//! builds the whole object graph in memory. A caller wraps the bytes in a
//! [`Realm`], takes the root [`Group`] from it, picks a [`Table`] by name or by
//! number, and reads a [`Row`] by number or finds one through an indexed
//! column.
//!
//! Every function that decodes bytes is specified against a mathematical
//! description of the file format, given as `spec` functions over `Seq<u8>`.
pub mod array;
pub mod cells;
pub mod column;
pub mod column_type;
pub mod debug;
pub mod endian;
pub mod error;
pub mod group;
pub mod index;
pub mod laws;
pub mod realm;
pub mod table;
pub mod utils;
pub mod value;

pub use column::Column;
pub use error::{RealmFileError, RealmResult, TableError, TableResult};
pub use group::Group;
pub use realm::{NodeHeader, NodeType, Realm};
pub use table::row::Row;
pub use table::Table;
pub use value::{Backlink, Link, Timestamp, Value};
