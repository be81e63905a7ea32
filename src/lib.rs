//! Derivation of a "creation projection" from a table declaration: the
//! fields of a record type are classified into a primary key, writable
//! fields and read-only fields, and a new type holding only the writable
//! fields is synthesized, named by prefixing `New` to the table's name.
pub mod classify;
pub mod field;
pub mod guarantees;
pub mod projection;
pub mod sample;

pub use classify::{classify, ClassifyError, PrimaryKey, TableData, TableDecl};
pub use field::{Annotation, Field};
pub use projection::{derive_table, new_table, Projection};
pub use sample::it_works;
