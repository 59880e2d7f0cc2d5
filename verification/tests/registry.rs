use tauri_plugin_sql::dialect::Backend;
use tauri_plugin_sql::name_map::NameMap;
use tauri_plugin_sql::registry::{ConnectionRegistry, DatabaseHandle};
use tauri_plugin_sql::migrator::highest_version;
use tauri_plugin_sql::statement::{execute_result, prepare, signed_id, BoundParam};
use tauri_plugin_sql::text::same_text;
use tauri_plugin_sql::{CanonicalValue, Error};

fn handle(name: &str, backend: Backend, pool: u32) -> DatabaseHandle<u32> {
    DatabaseHandle { name: name.to_string(), backend, pool }
}

#[test]
fn query_before_open_is_not_loaded_and_after_open_succeeds() {
    let mut registry: ConnectionRegistry<u32> = ConnectionRegistry::new();
    assert_eq!(registry.get("t1").err(), Some(Error::NotLoaded(String::from("t1"))));
    assert!(!registry.is_loaded("t1"));
    assert!(matches!(prepare(&registry, "t1", &Vec::new()), Err(Error::NotLoaded(_))));

    let key = registry.register("t1", handle("t1", Backend::Postgres, 7));
    assert_eq!(key, "t1");
    assert!(registry.is_loaded("t1"));
    assert_eq!(registry.get("t1").unwrap().pool, 7);
    let prepared = prepare(&registry, "t1", &Vec::new()).unwrap();
    assert_eq!(prepared.handle.pool, 7);
    assert_eq!(prepared.params.len(), 0);
}

#[test]
fn database_is_found_by_requested_and_by_canonical_name() {
    let mut registry: ConnectionRegistry<u32> = ConnectionRegistry::new();
    let key = registry.register("sqlite:t1.db", handle("sqlite:/app/t1.db", Backend::Sqlite, 1));
    assert_eq!(key, "sqlite:/app/t1.db");
    assert_eq!(registry.len(), 1);
    assert_eq!(registry.get("sqlite:t1.db").unwrap().pool, 1);
    assert_eq!(registry.get("sqlite:/app/t1.db").unwrap().pool, 1);
    assert_eq!(registry.get("sqlite:/app/t1.db").unwrap().backend, Backend::Sqlite);
    assert_eq!(
        registry.get("sqlite:t2.db").err(),
        Some(Error::NotLoaded(String::from("sqlite:t2.db")))
    );
}

#[test]
fn reopening_replaces_the_pool() {
    let mut registry: ConnectionRegistry<u32> = ConnectionRegistry::new();
    registry.register("mysql://h/a", handle("mysql://h/a", Backend::MySql, 1));
    registry.register("mysql://h/b", handle("mysql://h/b", Backend::MySql, 2));
    registry.register("mysql://h/a", handle("mysql://h/a", Backend::MySql, 3));
    assert_eq!(registry.len(), 2);
    assert_eq!(registry.get("mysql://h/a").unwrap().pool, 3);
    assert_eq!(registry.get("mysql://h/b").unwrap().pool, 2);
}

#[test]
fn parameters_are_bound_by_position() {
    let mut registry: ConnectionRegistry<u32> = ConnectionRegistry::new();
    registry.register("postgres://h/db", handle("postgres://h/db", Backend::Postgres, 1));
    let values = vec![
        CanonicalValue::Text(String::from("buy milk")),
        CanonicalValue::Integer(-3),
        CanonicalValue::Null,
        CanonicalValue::Bool(true),
        CanonicalValue::Bytes(String::from("aGk=")),
    ];
    let prepared = prepare(&registry, "postgres://h/db", &values).unwrap();
    assert_eq!(
        prepared.params,
        vec![
            BoundParam::Text(String::from("buy milk")),
            BoundParam::Integer(-3),
            BoundParam::Null,
            BoundParam::Bool(true),
            BoundParam::Text(String::from("aGk=")),
        ]
    );
}

#[test]
fn file_store_binds_booleans_as_zero_and_one() {
    let mut registry: ConnectionRegistry<u32> = ConnectionRegistry::new();
    registry.register("sqlite:t.db", handle("sqlite:/app/t.db", Backend::Sqlite, 1));
    let values = vec![CanonicalValue::Bool(true), CanonicalValue::Bool(false)];
    let prepared = prepare(&registry, "sqlite:t.db", &values).unwrap();
    assert_eq!(prepared.params, vec![BoundParam::Integer(1), BoundParam::Integer(0)]);
}

#[test]
fn statement_matching_no_row_reports_zero_and_zero() {
    for backend in [Backend::Sqlite, Backend::MySql, Backend::Postgres] {
        let result = execute_result(backend, 0, 0);
        assert_eq!(result.rows_affected, 0);
        assert_eq!(result.last_insert_id, 0);
    }
}

#[test]
fn generated_identifier_is_reported_where_the_backend_has_one() {
    assert_eq!(execute_result(Backend::Sqlite, 1, 42).last_insert_id, 42);
    assert_eq!(execute_result(Backend::MySql, 1, 42).last_insert_id, 42);
    assert_eq!(execute_result(Backend::Postgres, 1, 42).last_insert_id, 0);
    assert_eq!(execute_result(Backend::Postgres, 1, 42).rows_affected, 1);
    assert!(Backend::Sqlite.reports_insert_id());
    assert!(Backend::MySql.reports_insert_id());
    assert!(!Backend::Postgres.reports_insert_id());
}

#[test]
fn name_map_keeps_insertion_order_and_one_value_per_name() {
    let mut map: NameMap<u32> = NameMap::new();
    assert_eq!(map.len(), 0);
    assert_eq!(map.insert(String::from("b"), 1), None);
    assert_eq!(map.insert(String::from("a"), 2), None);
    assert_eq!(map.insert(String::from("b"), 3), Some(1));
    assert_eq!(map.len(), 2);
    assert_eq!(map.key_at(0), "b");
    assert_eq!(*map.value_at(0), 3);
    assert_eq!(map.key_at(1), "a");
    assert_eq!(map.get("a"), Some(&2));
    assert_eq!(map.get("c"), None);
    assert!(map.contains_key("b"));
    assert!(!map.contains_key("B"));
    assert_eq!(map.remove("b"), Some(3));
    assert_eq!(map.remove("b"), None);
    assert_eq!(map.len(), 1);
    assert_eq!(map.key_at(0), "a");
}

#[test]
fn name_map_tells_accented_names_apart() {
    let mut map: NameMap<u32> = NameMap::new();
    map.insert(String::from("caf\u{e9}"), 1);
    map.insert(String::from("cafe"), 2);
    map.insert(String::from("caf"), 3);
    assert_eq!(map.len(), 3);
    assert_eq!(map.get("caf\u{e9}"), Some(&1));
    assert_eq!(map.get("cafe"), Some(&2));
    assert_eq!(map.get("caf"), Some(&3));
    assert_eq!(map.get(""), None);
}

#[test]
fn unsigned_identifier_is_given_signed() {
    assert_eq!(signed_id(0), 0);
    assert_eq!(signed_id(5), 5);
    assert_eq!(signed_id(i64::MAX as u64), i64::MAX);
    assert_eq!(signed_id(i64::MAX as u64 + 1), i64::MAX);
    assert_eq!(signed_id(u64::MAX), i64::MAX);
}

#[test]
fn highest_recorded_version_is_found() {
    assert_eq!(highest_version(&Vec::new()), None);
    assert_eq!(highest_version(&vec![3]), Some(3));
    assert_eq!(highest_version(&vec![1, 3, 2]), Some(3));
    assert_eq!(highest_version(&vec![-5, -7]), Some(-5));
    assert_eq!(highest_version(&vec![i64::MIN, i64::MAX, 0]), Some(i64::MAX));
}

#[test]
fn texts_are_the_same_only_with_the_same_characters() {
    assert!(same_text("", ""));
    assert!(same_text("sqlite:t1.db", "sqlite:t1.db"));
    assert!(!same_text("TEXT", "text"));
    assert!(!same_text("TEXT", "TEXT "));
    assert!(!same_text("a", ""));
    assert!(same_text("na\u{ef}ve", "na\u{ef}ve"));
    assert!(!same_text("na\u{ef}ve", "naive"));
}

#[test]
fn database_is_found_under_the_returned_key_in_a_used_registry() {
    let mut registry: ConnectionRegistry<u32> = ConnectionRegistry::new();
    registry.register("sqlite:a.db", handle("sqlite:/app/a.db", Backend::Sqlite, 1));
    registry.register("mysql://h/b", handle("mysql://h/b", Backend::MySql, 2));
    let key = registry.register("sqlite:c.db", handle("sqlite:/app/c.db", Backend::Sqlite, 3));
    assert_eq!(registry.get(&key).unwrap().pool, 3);
    assert_eq!(registry.get("sqlite:c.db").unwrap().pool, 3);
    assert_eq!(registry.get("sqlite:a.db").unwrap().pool, 1);
    assert_eq!(registry.get("sqlite:/app/a.db").unwrap().pool, 1);
    assert_eq!(registry.get("mysql://h/b").unwrap().pool, 2);
    assert_eq!(registry.len(), 3);
}
