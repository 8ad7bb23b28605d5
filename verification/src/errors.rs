//! The error taxonomy every repository and lifecycle operation reports.

use vstd::prelude::*;
use vstd::string::*;
use crate::text::{push_signed_decimal, spec_signed_dec};

verus! {

/// Why an operation failed.
///
/// `IOError` covers filesystem and database failures, with the underlying
/// message.  `SerializationError` covers payloads that cannot be encoded or
/// decoded.  `SchemaIncompatible` carries the stored and target schema
/// versions when the stored one is newer than this code supports.
/// `MigrationPathMissing` carries the version step no migration script
/// bridges.  `IntegrityFailure` carries the first failing diagnostic of the
/// consistency check, after a best-effort backup.  `NotFound` means an
/// update or delete targeted a nonexistent id.  `InvalidInput` carries a
/// description of a missing required filter or an empty update.
#[derive(Debug, Clone, PartialEq, Eq)]
pub enum MemoryDbError {
    IOError(String),
    SerializationError(String),
    SchemaIncompatible(i64, i64),
    MigrationPathMissing(i64, i64),
    IntegrityFailure(String),
    NotFound,
    InvalidInput(String),
}

impl MemoryDbError {
    /// A human-readable description of the failure, surfaced to the host
    /// verbatim.
    pub fn message(&self) -> (r: String)
        ensures
            (match *self {
                MemoryDbError::IOError(m) => r@ == "database error: "@ + m@,
                MemoryDbError::SerializationError(m) => r@ == "serialization error: "@ + m@,
                MemoryDbError::SchemaIncompatible(stored, target) => r@ == "db schema too new: "@
                    + spec_signed_dec(stored as int) + " > "@ + spec_signed_dec(target as int),
                MemoryDbError::MigrationPathMissing(from, to) => r@ == "missing migration path: "@
                    + spec_signed_dec(from as int) + " -> "@ + spec_signed_dec(to as int),
                MemoryDbError::IntegrityFailure(m) => r@ == "memory db integrity check failed: "@
                    + m@,
                MemoryDbError::NotFound => r@ == "not found"@,
                MemoryDbError::InvalidInput(m) => r@ == "invalid input: "@ + m@,
            }),
    {
        match self {
            MemoryDbError::IOError(m) => {
                let mut s = String::from_str("database error: ");
                s.append(m.as_str());
                s
            },
            MemoryDbError::SerializationError(m) => {
                let mut s = String::from_str("serialization error: ");
                s.append(m.as_str());
                s
            },
            MemoryDbError::SchemaIncompatible(stored, target) => {
                let mut s = String::from_str("db schema too new: ");
                push_signed_decimal(&mut s, *stored);
                s.append(" > ");
                push_signed_decimal(&mut s, *target);
                s
            },
            MemoryDbError::MigrationPathMissing(from, to) => {
                let mut s = String::from_str("missing migration path: ");
                push_signed_decimal(&mut s, *from);
                s.append(" -> ");
                push_signed_decimal(&mut s, *to);
                s
            },
            MemoryDbError::IntegrityFailure(m) => {
                let mut s = String::from_str("memory db integrity check failed: ");
                s.append(m.as_str());
                s
            },
            MemoryDbError::NotFound => String::from_str("not found"),
            MemoryDbError::InvalidInput(m) => {
                let mut s = String::from_str("invalid input: ");
                s.append(m.as_str());
                s
            },
        }
    }
}

} // verus!
