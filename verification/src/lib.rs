//! Scoped embedded-database core for a chat application's memory subsystem.
//!
//! Each caller-chosen scope maps to one SQLite database file holding
//! structured memory rows and the templates that describe their shape.
//! This crate verifies the logic around the database: scope-key
//! normalization and file-path derivation, schema versioning and the
//! migration plan, the integrity-guard decisions, and the repository
//! operations (create, update, delete, query, batch) as transitions on an
//! in-memory mirror of each scope's rows.  The SQLite calls themselves go
//! through small trusted wrappers.

use vstd::prelude::*;

pub mod db;
pub mod errors;
pub mod http;
pub mod records;
pub mod schema;
pub mod scope;
pub mod sql;
pub mod storage;
pub mod store;
pub mod text;

pub use db::MemoryDb;
pub use errors::MemoryDbError;
pub use http::HttpResponse;
pub use records::{
    MemoryCreateInput,
    MemoryQuery,
    MemoryRecord,
    MemoryUpdateInput,
    TemplateInput,
    TemplateQuery,
    TemplateRecord,
};
pub use storage::{simple_decrypt, simple_encrypt, AppConfig, ChatMessage};
pub use store::ScopeState;

verus! {

} // verus!
