//! Repository behavior against real on-disk databases: CRUD round trips,
//! scope isolation, batches, query modes and result ordering.

use memory_store::{
    MemoryCreateInput, MemoryDb, MemoryDbError, MemoryQuery, MemoryUpdateInput, TemplateInput,
    TemplateQuery,
};

fn new_test_db(tag: &str) -> (MemoryDb, tempfile::TempDir) {
    let dir = tempfile::Builder::new()
        .prefix(&format!("memdb_test_{}_", tag))
        .tempdir()
        .unwrap();
    let base = dir.path().to_str().unwrap().to_string();
    (MemoryDb::new(base, true), dir)
}

fn json_text(v: &serde_json::Value) -> String {
    serde_json::to_string(v).unwrap()
}

fn relation_payload(rel: &str) -> String {
    let mut obj = serde_json::Map::new();
    obj.insert(
        "relation".to_string(),
        serde_json::Value::String(rel.to_string()),
    );
    json_text(&serde_json::Value::Object(obj))
}

fn name_payload(name: &str) -> String {
    let mut obj = serde_json::Map::new();
    obj.insert(
        "name".to_string(),
        serde_json::Value::String(name.to_string()),
    );
    json_text(&serde_json::Value::Object(obj))
}

fn seed_template(db: &mut MemoryDb, scope_id: Option<String>, template_id: &str) {
    let mut meta = serde_json::Map::new();
    meta.insert(
        "id".to_string(),
        serde_json::Value::String(template_id.to_string()),
    );
    meta.insert(
        "name".to_string(),
        serde_json::Value::String("Test Template".to_string()),
    );
    let mut schema = serde_json::Map::new();
    schema.insert("meta".to_string(), serde_json::Value::Object(meta));
    schema.insert("tables".to_string(), serde_json::Value::Array(Vec::new()));
    db.save_template(
        scope_id,
        TemplateInput {
            id: template_id.to_string(),
            name: "Test Template".to_string(),
            author: None,
            version: Some("1".to_string()),
            description: None,
            schema: json_text(&serde_json::Value::Object(schema)),
            injection: None,
            is_default: Some(true),
            is_builtin: Some(false),
        },
    )
    .unwrap();
}

fn create_input(template_id: &str, table_id: &str, contact: Option<&str>) -> MemoryCreateInput {
    MemoryCreateInput {
        id: None,
        template_id: template_id.to_string(),
        table_id: table_id.to_string(),
        contact_id: contact.map(|c| c.to_string()),
        group_id: None,
        row_data: name_payload("A"),
        is_active: None,
        is_pinned: None,
        priority: None,
        sort_order: None,
    }
}

fn contact_query(contact: &str, template: &str) -> MemoryQuery {
    MemoryQuery {
        contact_id: Some(contact.to_string()),
        group_id: None,
        template_id: Some(template.to_string()),
        scope: None,
    }
}

#[test]
fn memory_crud_roundtrip() {
    let (mut db, _dir) = new_test_db("crud");
    seed_template(&mut db, None, "tpl_crud");

    let id = db
        .create_memory(
            None,
            MemoryCreateInput {
                id: None,
                template_id: "tpl_crud".to_string(),
                table_id: "relationship".to_string(),
                contact_id: Some("contact_1".to_string()),
                group_id: None,
                row_data: relation_payload("friend"),
                is_active: Some(true),
                is_pinned: Some(false),
                priority: Some(1),
                sort_order: Some(0),
            },
        )
        .unwrap();

    let list = db
        .get_memories(None, contact_query("contact_1", "tpl_crud"))
        .unwrap();
    assert_eq!(list.len(), 1);
    assert_eq!(list[0].id, id);

    db.update_memory(
        None,
        MemoryUpdateInput {
            id: id.clone(),
            row_data: Some(relation_payload("best friend")),
            is_active: Some(false),
            is_pinned: Some(true),
            priority: Some(7),
            sort_order: Some(3),
        },
    )
    .unwrap();

    let updated = db
        .get_memories(None, contact_query("contact_1", "tpl_crud"))
        .unwrap();
    let payload: serde_json::Value = serde_json::from_str(&updated[0].row_data).unwrap();
    assert_eq!(payload["relation"], "best friend");
    assert!(!updated[0].is_active);
    assert!(updated[0].is_pinned);
    assert_eq!(updated[0].priority, 7);
    assert_eq!(updated[0].sort_order, 3);

    db.delete_memory(None, id).unwrap();
    let empty = db
        .get_memories(None, contact_query("contact_1", "tpl_crud"))
        .unwrap();
    assert!(empty.is_empty());
}

#[test]
fn memory_scope_isolation() {
    let (mut db, _dir) = new_test_db("scope");
    seed_template(&mut db, None, "tpl_scope");
    seed_template(&mut db, Some("persona_a".to_string()), "tpl_scope");

    let mut input_a = create_input("tpl_scope", "profile", Some("contact_a"));
    input_a.row_data = name_payload("A");
    db.create_memory(None, input_a).unwrap();

    let mut input_b = create_input("tpl_scope", "profile", Some("contact_b"));
    input_b.row_data = name_payload("B");
    db.create_memory(Some("persona_a".to_string()), input_b)
        .unwrap();

    let default_rows = db
        .get_memories(
            None,
            MemoryQuery {
                contact_id: None,
                group_id: None,
                template_id: Some("tpl_scope".to_string()),
                scope: None,
            },
        )
        .unwrap();
    let scoped_rows = db
        .get_memories(
            Some("persona_a".to_string()),
            MemoryQuery {
                contact_id: None,
                group_id: None,
                template_id: Some("tpl_scope".to_string()),
                scope: None,
            },
        )
        .unwrap();
    assert_eq!(default_rows.len(), 1);
    assert_eq!(scoped_rows.len(), 1);
    assert_ne!(default_rows[0].contact_id, scoped_rows[0].contact_id);
}

#[test]
fn batch_create_and_delete() {
    let (mut db, _dir) = new_test_db("batch");
    let scope_id = Some("batch_scope".to_string());
    seed_template(&mut db, scope_id.clone(), "tpl_batch");

    let items = vec![
        create_input("tpl_batch", "profile", Some("contact_1")),
        {
            let mut i = create_input("tpl_batch", "profile", Some("contact_2"));
            i.row_data = name_payload("B");
            i
        },
    ];
    let count = db.batch_create_memories(scope_id.clone(), items).unwrap();
    assert_eq!(count, 2);

    let list = db
        .get_memories(
            scope_id.clone(),
            MemoryQuery {
                contact_id: None,
                group_id: None,
                template_id: Some("tpl_batch".to_string()),
                scope: None,
            },
        )
        .unwrap();
    assert_eq!(list.len(), 2);
    let ids: Vec<String> = list.iter().map(|row| row.id.clone()).collect();

    let deleted = db.batch_delete_memories(scope_id, ids).unwrap();
    assert_eq!(deleted, 2);
}

#[test]
fn batch_create_adds_exactly_n_rows() {
    let (mut db, _dir) = new_test_db("batch_n");
    seed_template(&mut db, None, "tpl_n");
    let unfiltered = MemoryQuery {
        contact_id: None,
        group_id: None,
        template_id: None,
        scope: None,
    };
    db.create_memory(None, create_input("tpl_n", "t", Some("c0")))
        .unwrap();
    let before = db.get_memories(None, unfiltered.clone()).unwrap().len();
    let items: Vec<MemoryCreateInput> = (0..5)
        .map(|i| create_input("tpl_n", "t", Some(&format!("c{}", i + 1))))
        .collect();
    let count = db.batch_create_memories(None, items).unwrap();
    assert_eq!(count, 5);
    let after = db.get_memories(None, unfiltered).unwrap().len();
    assert_eq!(after, before + 5);
}

#[test]
fn query_contact_scope_without_contact_is_invalid_input() {
    let (mut db, _dir) = new_test_db("invalid");
    seed_template(&mut db, None, "tpl_q");
    db.create_memory(None, create_input("tpl_q", "t", Some("c1")))
        .unwrap();
    let res = db.get_memories(
        None,
        MemoryQuery {
            contact_id: None,
            group_id: None,
            template_id: None,
            scope: Some("contact".to_string()),
        },
    );
    assert!(matches!(res, Err(MemoryDbError::InvalidInput(_))));
    let res = db.get_memories(
        None,
        MemoryQuery {
            contact_id: None,
            group_id: None,
            template_id: None,
            scope: Some("group".to_string()),
        },
    );
    assert!(matches!(res, Err(MemoryDbError::InvalidInput(_))));
}

#[test]
fn query_scope_modes() {
    let (mut db, _dir) = new_test_db("modes");
    seed_template(&mut db, None, "tpl_m");
    let mut global = create_input("tpl_m", "t", None);
    global.id = Some("m_global".to_string());
    db.create_memory(None, global).unwrap();
    let mut contact = create_input("tpl_m", "t", Some("c1"));
    contact.id = Some("m_contact".to_string());
    db.create_memory(None, contact).unwrap();
    let mut group = create_input("tpl_m", "t", None);
    group.id = Some("m_group".to_string());
    group.group_id = Some("g1".to_string());
    db.create_memory(None, group).unwrap();

    let global_rows = db
        .get_memories(
            None,
            MemoryQuery {
                contact_id: None,
                group_id: None,
                template_id: None,
                scope: Some("  GLOBAL ".to_string()),
            },
        )
        .unwrap();
    assert_eq!(global_rows.len(), 1);
    assert_eq!(global_rows[0].id, "m_global");

    let contact_rows = db
        .get_memories(
            None,
            MemoryQuery {
                contact_id: Some("c1".to_string()),
                group_id: None,
                template_id: None,
                scope: Some("contact".to_string()),
            },
        )
        .unwrap();
    assert_eq!(contact_rows.len(), 1);
    assert_eq!(contact_rows[0].id, "m_contact");

    let group_rows = db
        .get_memories(
            None,
            MemoryQuery {
                contact_id: None,
                group_id: Some("g1".to_string()),
                template_id: None,
                scope: Some("group".to_string()),
            },
        )
        .unwrap();
    assert_eq!(group_rows.len(), 1);
    assert_eq!(group_rows[0].id, "m_group");
}

#[test]
fn query_ordering_pinned_priority_updated() {
    let (mut db, _dir) = new_test_db("order");
    seed_template(&mut db, None, "tpl_o");
    for (id, pinned, priority) in [
        ("m1", true, 1i64),
        ("m2", false, 9i64),
        ("m3", true, 5i64),
    ] {
        let mut input = create_input("tpl_o", "t", Some("c1"));
        input.id = Some(id.to_string());
        input.is_pinned = Some(pinned);
        input.priority = Some(priority);
        db.create_memory(None, input).unwrap();
    }
    let rows = db
        .get_memories(None, contact_query("c1", "tpl_o"))
        .unwrap();
    let ids: Vec<&str> = rows.iter().map(|r| r.id.as_str()).collect();
    assert_eq!(ids, vec!["m3", "m1", "m2"]);
}

#[test]
fn create_payload_roundtrip_by_contact() {
    let (mut db, _dir) = new_test_db("payload");
    seed_template(&mut db, None, "tpl_p");
    let mut input = create_input("tpl_p", "t", Some("c9"));
    input.row_data = relation_payload("friend");
    db.create_memory(None, input).unwrap();
    let rows = db
        .get_memories(None, contact_query("c9", "tpl_p"))
        .unwrap();
    assert_eq!(rows.len(), 1);
    let got: serde_json::Value = serde_json::from_str(&rows[0].row_data).unwrap();
    let want: serde_json::Value = serde_json::from_str(&relation_payload("friend")).unwrap();
    assert_eq!(got, want);
}

#[test]
fn update_priority_only_keeps_other_fields() {
    let (mut db, _dir) = new_test_db("prio");
    seed_template(&mut db, None, "tpl_u");
    let mut input = create_input("tpl_u", "t", Some("c1"));
    input.row_data = relation_payload("friend");
    input.sort_order = Some(4);
    let id = db.create_memory(None, input).unwrap();
    let before = db
        .get_memories(None, contact_query("c1", "tpl_u"))
        .unwrap();
    db.update_memory(
        None,
        MemoryUpdateInput {
            id: id.clone(),
            row_data: None,
            is_active: None,
            is_pinned: None,
            priority: Some(7),
            sort_order: None,
        },
    )
    .unwrap();
    let after = db
        .get_memories(None, contact_query("c1", "tpl_u"))
        .unwrap();
    assert_eq!(after[0].row_data, before[0].row_data);
    assert_eq!(after[0].is_pinned, before[0].is_pinned);
    assert_eq!(after[0].sort_order, before[0].sort_order);
    assert_eq!(after[0].priority, 7);
    assert!(after[0].updated_at >= before[0].updated_at);
}

#[test]
fn update_without_fields_is_invalid_input() {
    let (mut db, _dir) = new_test_db("nofields");
    seed_template(&mut db, None, "tpl_nf");
    let id = db
        .create_memory(None, create_input("tpl_nf", "t", Some("c1")))
        .unwrap();
    let res = db.update_memory(
        None,
        MemoryUpdateInput {
            id,
            row_data: None,
            is_active: None,
            is_pinned: None,
            priority: None,
            sort_order: None,
        },
    );
    assert!(matches!(res, Err(MemoryDbError::InvalidInput(_))));
}

#[test]
fn delete_nonexistent_returns_not_found_twice() {
    let (mut db, _dir) = new_test_db("notfound");
    seed_template(&mut db, None, "tpl_d");
    let res = db.delete_memory(None, "no_such_id".to_string());
    assert!(matches!(res, Err(MemoryDbError::NotFound)));
    let id = db
        .create_memory(None, create_input("tpl_d", "t", Some("c1")))
        .unwrap();
    db.delete_memory(None, id.clone()).unwrap();
    let res = db.delete_memory(None, id.clone());
    assert!(matches!(res, Err(MemoryDbError::NotFound)));
    let res = db.delete_memory(None, id);
    assert!(matches!(res, Err(MemoryDbError::NotFound)));
}

#[test]
fn update_nonexistent_returns_not_found() {
    let (mut db, _dir) = new_test_db("upd_nf");
    seed_template(&mut db, None, "tpl_un");
    let res = db.update_memory(
        None,
        MemoryUpdateInput {
            id: "missing".to_string(),
            row_data: None,
            is_active: None,
            is_pinned: None,
            priority: Some(1),
            sort_order: None,
        },
    );
    assert!(matches!(res, Err(MemoryDbError::NotFound)));
}

#[test]
fn template_upsert_keeps_created_at_and_overwrites_fields() {
    let (mut db, _dir) = new_test_db("tpl_upsert");
    seed_template(&mut db, None, "tpl_x");
    let first = db
        .get_templates(
            None,
            TemplateQuery {
                id: Some("tpl_x".to_string()),
                is_default: None,
                is_builtin: None,
            },
        )
        .unwrap();
    assert_eq!(first.len(), 1);
    let created_at = first[0].created_at;
    assert!(first[0].is_default);

    db.save_template(
        None,
        TemplateInput {
            id: "tpl_x".to_string(),
            name: "Renamed".to_string(),
            author: Some("someone".to_string()),
            version: Some("2".to_string()),
            description: Some("desc".to_string()),
            schema: "{}".to_string(),
            injection: None,
            is_default: None,
            is_builtin: None,
        },
    )
    .unwrap();

    let second = db
        .get_templates(
            None,
            TemplateQuery {
                id: Some("tpl_x".to_string()),
                is_default: None,
                is_builtin: None,
            },
        )
        .unwrap();
    assert_eq!(second.len(), 1);
    assert_eq!(second[0].name, "Renamed");
    assert_eq!(second[0].created_at, created_at);
    assert!(second[0].updated_at >= created_at);
    assert!(!second[0].is_default);
    assert!(!second[0].is_builtin);
}

#[test]
fn template_filters_and_delete() {
    let (mut db, _dir) = new_test_db("tpl_filters");
    for (id, default, builtin) in [("t1", true, false), ("t2", false, true), ("t3", false, false)] {
        db.save_template(
            None,
            TemplateInput {
                id: id.to_string(),
                name: id.to_string(),
                author: None,
                version: None,
                description: None,
                schema: "{}".to_string(),
                injection: None,
                is_default: Some(default),
                is_builtin: Some(builtin),
            },
        )
        .unwrap();
    }
    let defaults = db
        .get_templates(
            None,
            TemplateQuery {
                id: None,
                is_default: Some(true),
                is_builtin: None,
            },
        )
        .unwrap();
    assert_eq!(defaults.len(), 1);
    assert_eq!(defaults[0].id, "t1");
    let builtins = db
        .get_templates(
            None,
            TemplateQuery {
                id: None,
                is_default: None,
                is_builtin: Some(true),
            },
        )
        .unwrap();
    assert_eq!(builtins.len(), 1);
    assert_eq!(builtins[0].id, "t2");

    db.delete_template(None, "t3".to_string()).unwrap();
    let res = db.delete_template(None, "t3".to_string());
    assert!(matches!(res, Err(MemoryDbError::NotFound)));
    let all = db
        .get_templates(
            None,
            TemplateQuery {
                id: None,
                is_default: None,
                is_builtin: None,
            },
        )
        .unwrap();
    assert_eq!(all.len(), 2);
}

#[test]
fn explicit_id_is_trimmed_and_kept() {
    let (mut db, _dir) = new_test_db("ids");
    seed_template(&mut db, None, "tpl_i");
    let mut input = create_input("tpl_i", "t", Some("c1"));
    input.id = Some("  my_id  ".to_string());
    let id = db.create_memory(None, input).unwrap();
    assert_eq!(id, "my_id");

    let mut blank = create_input("tpl_i", "t", Some("c1"));
    blank.id = Some("   ".to_string());
    let generated = db.create_memory(None, blank).unwrap();
    assert!(generated.starts_with("mem_"));
}
