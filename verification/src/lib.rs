//! A read-only decoder for a single-file, page-organized relational database
//! container: the fixed 100-byte file header, the four kinds of B-tree pages,
//! the variable-length integer encoding used throughout cell and record
//! headers, record bodies with their serial-type codes, and enough B-tree
//! traversal to enumerate the schema table and list the user-defined tables.
//!
//! The decoder works on an in-memory byte image of the file; reading the file
//! from disk is left to the caller.

pub mod btree;
pub mod bytes;
pub mod db;
pub mod error;
pub mod header;
pub mod page;
pub mod record;
pub mod schema;
pub mod varint;
