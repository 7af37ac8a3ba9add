//! Storage and query-resolution core of a small relational engine.
//!
//! A catalog holds named, columnar tables whose rows are tombstoned rather
//! than removed. Statements arrive already parsed; names in them are resolved
//! to catalog positions, and a scan or an insertion is planned and run
//! against those positions.
//!
//! Every function states what it returns and changes over mathematical
//! values of the data (`TableView`, `CatalogView`, and the like), and is
//! proved to do so. The one thing taken on trust is the row-validity bitmap
//! of the `bit-vec` crate, whose methods are stated in `bitmap`.

pub mod failure;
pub mod definitions;
pub mod bitmap;
pub mod tables;
pub mod schema;
pub mod ir;
pub mod plan;
pub mod engine;
