//! Documentation extracted from annotated `CREATE TABLE` statements.
//!
//! The core is a line-oriented scanner that classifies each line of a
//! `CREATE TABLE` statement as table-level documentation (`--!`), column-level
//! documentation (`--- `), an ordinary comment (`-- `), or a column
//! definition, and accumulates per-column documentation records. Renderers
//! turn the records into a markdown data dictionary or a nested metadata
//! document.

pub mod datasette;
pub mod docs;
pub mod markdown;

pub use datasette::DatasetteMetadata;
pub use datasette::DatasetteMetadataDatabase;
pub use datasette::DatasetteMetadataTable;
pub use datasette::generate_metadata;
pub use docs::ColumnDocs;
pub use docs::TableDocs;
pub use markdown::generate_markdown;
