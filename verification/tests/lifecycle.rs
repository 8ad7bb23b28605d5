//! Connection lifecycle: ephemeral strategy, schema-version fencing, and
//! the integrity guard's backup-on-corruption behavior.

use memory_store::{MemoryCreateInput, MemoryDb, MemoryDbError, MemoryQuery, TemplateInput};

fn tempdir(tag: &str) -> tempfile::TempDir {
    tempfile::Builder::new()
        .prefix(&format!("memdb_life_{}_", tag))
        .tempdir()
        .unwrap()
}

fn simple_input(contact: &str) -> MemoryCreateInput {
    MemoryCreateInput {
        id: None,
        template_id: "tpl".to_string(),
        table_id: "t".to_string(),
        contact_id: Some(contact.to_string()),
        group_id: None,
        row_data: "{\"k\":1}".to_string(),
        is_active: None,
        is_pinned: None,
        priority: None,
        sort_order: None,
    }
}

fn unfiltered() -> MemoryQuery {
    MemoryQuery {
        contact_id: None,
        group_id: None,
        template_id: None,
        scope: None,
    }
}

#[test]
fn ephemeral_strategy_persists_between_calls() {
    let dir = tempdir("ephemeral");
    let base = dir.path().to_str().unwrap().to_string();
    let mut db = MemoryDb::new(base, false);
    db.create_memory(None, simple_input("c1")).unwrap();
    let rows = db.get_memories(None, unfiltered()).unwrap();
    assert_eq!(rows.len(), 1);
    assert_eq!(rows[0].contact_id.as_deref(), Some("c1"));
}

#[test]
fn pooled_state_survives_close_all() {
    let dir = tempdir("closeall");
    let base = dir.path().to_str().unwrap().to_string();
    let mut db = MemoryDb::new(base, true);
    db.create_memory(None, simple_input("c1")).unwrap();
    db.close_all();
    let rows = db.get_memories(None, unfiltered()).unwrap();
    assert_eq!(rows.len(), 1);
}

#[test]
fn newer_stored_schema_version_is_incompatible() {
    let dir = tempdir("schema_new");
    let base = dir.path().to_str().unwrap().to_string();
    let db_file = format!("{}/memories.db", base);
    {
        let mut db = MemoryDb::new(base.clone(), true);
        db.init_database(None).unwrap();
        db.close_all();
    }
    {
        let conn = rusqlite::Connection::open(&db_file).unwrap();
        conn.execute(
            "INSERT OR REPLACE INTO schema_info (key, value) VALUES ('schema_version', '99')",
            [],
        )
        .unwrap();
    }
    let bytes_before = fs_err::read(&db_file).unwrap();
    let mut db = MemoryDb::new(base, true);
    let res = db.init_database(None);
    match res {
        Err(MemoryDbError::SchemaIncompatible(stored, target)) => {
            assert_eq!(stored, 99);
            assert_eq!(target, 1);
        }
        other => panic!("expected SchemaIncompatible, got {:?}", other),
    }
    let bytes_after = fs_err::read(&db_file).unwrap();
    assert_eq!(bytes_before, bytes_after);
}

#[test]
fn unparsable_stored_version_reinitializes() {
    let dir = tempdir("schema_garbage");
    let base = dir.path().to_str().unwrap().to_string();
    let db_file = format!("{}/memories.db", base);
    {
        let mut db = MemoryDb::new(base.clone(), true);
        db.init_database(None).unwrap();
        db.close_all();
    }
    {
        let conn = rusqlite::Connection::open(&db_file).unwrap();
        conn.execute(
            "INSERT OR REPLACE INTO schema_info (key, value) VALUES ('schema_version', 'abc')",
            [],
        )
        .unwrap();
    }
    let mut db = MemoryDb::new(base, true);
    db.init_database(None).unwrap();
}

#[test]
fn corrupted_database_backs_up_once_and_fails() {
    let dir = tempdir("corrupt");
    let base = dir.path().to_str().unwrap().to_string();
    let db_file = format!("{}/memories.db", base);
    {
        let mut db = MemoryDb::new(base.clone(), true);
        db.save_template(
            None,
            TemplateInput {
                id: "tpl".to_string(),
                name: "t".to_string(),
                author: None,
                version: None,
                description: None,
                schema: "{}".to_string(),
                injection: None,
                is_default: None,
                is_builtin: None,
            },
        )
        .unwrap();
        for i in 0..80 {
            let mut input = simple_input(&format!("contact_{}", i));
            input.row_data = format!("{{\"filler\":\"{}\"}}", "x".repeat(200));
            db.create_memory(None, input).unwrap();
        }
        db.close_all();
    }
    // Corrupt row data pages in the middle of the file, leaving the header
    // and the first pages (holding the schema tables) intact.
    let mut bytes = fs_err::read(&db_file).unwrap();
    assert!(bytes.len() > 16384);
    let start = bytes.len() - 8192;
    let end = bytes.len() - 4096;
    for b in &mut bytes[start..end] {
        *b ^= 0xFF;
    }
    fs_err::write(&db_file, &bytes).unwrap();
    let bytes_before = fs_err::read(&db_file).unwrap();

    let mut db = MemoryDb::new(base.clone(), true);
    let res = db.init_database(None);
    assert!(
        matches!(res, Err(MemoryDbError::IntegrityFailure(_))),
        "expected IntegrityFailure, got {:?}",
        res
    );

    let mut backups: usize = 0;
    for entry in fs_err::read_dir(&base).unwrap() {
        let name = entry.unwrap().file_name().to_str().unwrap().to_string();
        if name.starts_with("memories.db.corrupt.") && name.ends_with(".bak") {
            backups += 1;
        }
    }
    assert_eq!(backups, 1);

    let bytes_after = fs_err::read(&db_file).unwrap();
    assert_eq!(bytes_before, bytes_after);
}

#[test]
fn distinct_scopes_use_distinct_files() {
    let dir = tempdir("files");
    let base = dir.path().to_str().unwrap().to_string();
    let mut db = MemoryDb::new(base.clone(), true);
    db.init_database(None).unwrap();
    db.init_database(Some("alpha".to_string())).unwrap();
    db.init_database(Some("beta beta!".to_string())).unwrap();
    db.close_all();
    let mut names: Vec<String> = Vec::new();
    for entry in fs_err::read_dir(&base).unwrap() {
        let name = entry.unwrap().file_name().to_str().unwrap().to_string();
        if name.ends_with(".db") {
            names.push(name);
        }
    }
    names.sort();
    assert_eq!(
        names,
        vec![
            "memories.db".to_string(),
            "memories__alpha.db".to_string(),
            "memories__beta_beta.db".to_string(),
        ]
    );
}
