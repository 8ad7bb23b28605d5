//! The pure pieces: scope-key normalization, id generation, integer
//! parsing, the migration-chain validator, error messages, the obfuscation
//! helpers and the response assembler.

use memory_store::errors::MemoryDbError;
use memory_store::http::HttpResponse;
use memory_store::records::{bool_to_int, generate_id, int_to_bool};
use memory_store::schema::{migration_chain, validate_migration_chain, Migration};
use memory_store::scope::{db_file_name, db_path_for, normalize_scope_id};
use memory_store::storage::{simple_decrypt, simple_encrypt};
use memory_store::text::{lower_str, parse_i64, trim_lower, trim_str};

#[test]
fn normalize_scope_id_policy() {
    assert_eq!(normalize_scope_id(None), "");
    assert_eq!(normalize_scope_id(Some("".to_string())), "");
    assert_eq!(normalize_scope_id(Some("   ".to_string())), "");
    assert_eq!(normalize_scope_id(Some(" persona_a ".to_string())), "persona_a");
    assert_eq!(normalize_scope_id(Some("beta beta!".to_string())), "beta_beta");
    assert_eq!(normalize_scope_id(Some("A.b-C_9".to_string())), "A.b-C_9");
    assert_eq!(normalize_scope_id(Some("__x__".to_string())), "x");
    assert_eq!(normalize_scope_id(Some("!!!".to_string())), "");
    let long = "a".repeat(100);
    assert_eq!(normalize_scope_id(Some(long)), "a".repeat(80));
    let trailing = format!("{}_", "a".repeat(79));
    assert_eq!(normalize_scope_id(Some(trailing)), "a".repeat(79));
}

#[test]
fn db_file_names() {
    assert_eq!(db_file_name(""), "memories.db");
    assert_eq!(db_file_name("persona_a"), "memories__persona_a.db");
    assert_eq!(db_path_for("/tmp/base", "x"), "/tmp/base/memories__x.db");
    assert_ne!(db_file_name("a"), db_file_name("b"));
}

#[test]
fn generated_id_shape() {
    let id = generate_id(1700000000123, 41007);
    assert_eq!(id, "mem_1700000000123_7");
    let id = generate_id(0, 999);
    assert_eq!(id, "mem_0_999");
}

#[test]
fn bool_int_conversions() {
    assert_eq!(bool_to_int(true), 1);
    assert_eq!(bool_to_int(false), 0);
    assert!(int_to_bool(1));
    assert!(int_to_bool(-3));
    assert!(!int_to_bool(0));
}

#[test]
fn parse_i64_accepts_what_std_accepts() {
    for s in [
        "0", "1", "123", "-5", "+7", "007", "9223372036854775807", "-9223372036854775808", "", " 1",
        "1 ", "12a", "--3", "99999999999999999999", "-99999999999999999999",
        "9223372036854775808",
    ] {
        assert_eq!(parse_i64(s), s.parse::<i64>().ok(), "input {:?}", s);
    }
}

#[test]
fn text_helpers() {
    assert_eq!(trim_str("  a b  "), "a b");
    assert_eq!(trim_lower("  GlObAl "), "global");
    assert_eq!(lower_str("OK"), "ok");
    assert_eq!(lower_str("ok!"), "ok!");
}

#[test]
fn empty_migration_chain_is_valid_for_target_one() {
    let chain = migration_chain();
    assert!(validate_migration_chain(&chain, 1));
    assert!(!validate_migration_chain(&chain, 2));
}

#[test]
fn migration_chain_validation_counts_steps() {
    let mut chain: Vec<Migration> = Vec::new();
    chain.push(Migration { from: 1, to: 2, sql: "" });
    assert!(validate_migration_chain(&chain, 2));
    assert!(!validate_migration_chain(&chain, 3));
    chain.push(Migration { from: 2, to: 3, sql: "" });
    assert!(validate_migration_chain(&chain, 3));
    chain.push(Migration { from: 1, to: 2, sql: "" });
    assert!(!validate_migration_chain(&chain, 3));
}

#[test]
fn colliding_scope_names_are_the_same_scope() {
    assert_eq!(
        normalize_scope_id(Some("a b".to_string())),
        normalize_scope_id(Some("a?b".to_string()))
    );
    assert_eq!(
        db_file_name(&normalize_scope_id(Some("a b".to_string()))),
        db_file_name(&normalize_scope_id(Some("a?b".to_string())))
    );
}

#[test]
fn error_messages() {
    assert_eq!(
        MemoryDbError::SchemaIncompatible(99, 1).message(),
        "db schema too new: 99 > 1"
    );
    assert_eq!(
        MemoryDbError::MigrationPathMissing(0, 1).message(),
        "missing migration path: 0 -> 1"
    );
    assert_eq!(MemoryDbError::NotFound.message(), "not found");
    assert_eq!(
        MemoryDbError::InvalidInput("no fields to update".to_string()).message(),
        "invalid input: no fields to update"
    );
    assert_eq!(
        MemoryDbError::IOError("disk full".to_string()).message(),
        "database error: disk full"
    );
    assert_eq!(
        MemoryDbError::IntegrityFailure("row 3".to_string()).message(),
        "memory db integrity check failed: row 3"
    );
    assert_eq!(
        MemoryDbError::SerializationError("bad utf8".to_string()).message(),
        "serialization error: bad utf8"
    );
}

#[test]
fn encrypt_decrypt_roundtrip() {
    let secret = "sample-key-123";
    let encoded = simple_encrypt(secret);
    assert_ne!(encoded, secret);
    assert_eq!(simple_decrypt(&encoded).unwrap(), secret);
    assert_eq!(simple_encrypt(""), "");
    assert_eq!(simple_decrypt("").unwrap(), "");
    assert!(simple_decrypt("!!!not base64!!!").is_err());
}

#[test]
fn http_response_success_flag() {
    let r = HttpResponse::from_parts(200, std::collections::HashMap::new(), "ok".to_string());
    assert!(r.ok);
    let r = HttpResponse::from_parts(299, std::collections::HashMap::new(), String::new());
    assert!(r.ok);
    let r = HttpResponse::from_parts(301, std::collections::HashMap::new(), String::new());
    assert!(!r.ok);
    let r = HttpResponse::from_parts(199, std::collections::HashMap::new(), String::new());
    assert!(!r.ok);
    let r = HttpResponse::from_parts(404, std::collections::HashMap::new(), String::new());
    assert!(!r.ok);
    assert_eq!(r.status, 404);
}
