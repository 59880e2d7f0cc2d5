use tauri_plugin_sql::deserialize::{decode_rows, RawColumn};
use tauri_plugin_sql::dialect::{Backend, Dialect};
use tauri_plugin_sql::migrator::{Migrator, MigratorAction, MigratorEvent};
use tauri_plugin_sql::open::{OpenAction, OpenEvent, OpenFlow};
use tauri_plugin_sql::registry::ConnectionRegistry;
use tauri_plugin_sql::statement::{execute_result, prepare};
use tauri_plugin_sql::{CanonicalValue, Migration, MigrationKind, TauriSql};

fn refused<T>() -> Result<T, String> {
    Err(String::from("mismatched types"))
}

fn scanned(name: &str, type_tag: &str, integer: Option<i64>, text: Option<&str>) -> RawColumn {
    RawColumn {
        name: name.to_string(),
        type_tag: type_tag.to_string(),
        type_is_null: false,
        value_is_null: false,
        int64: integer.ok_or(String::from("mismatched types")),
        int32: refused(),
        int16: refused(),
        int8: refused(),
        boolean: refused(),
        text: text.map(|t| t.to_string()).ok_or(String::from("mismatched types")),
        bytes: refused(),
    }
}

#[test]
fn todo_is_opened_filled_and_queried() {
    let create = Migration {
        version: 1,
        description: "create todo",
        sql: "create table todo(id INTEGER, title TEXT)",
        kind: MigrationKind::Up,
    };
    let mut plugin = TauriSql::default().add_migrations("sqlite:t1", vec![create]);
    let mut registry: ConnectionRegistry<u32> = ConnectionRegistry::new();

    let (mut flow, _) = OpenFlow::begin("sqlite:t1", "/app").unwrap();
    flow.step(OpenEvent::Directories(Ok(())), &mut plugin);
    flow.step(OpenEvent::Existence(Ok(false)), &mut plugin);
    flow.step(OpenEvent::Created(Ok(())), &mut plugin);
    let list = match flow.step(OpenEvent::Connected(Ok(())), &mut plugin) {
        OpenAction::Migrate(list) => list,
        other => panic!("unexpected action {:?}", other),
    };
    let (mut run, _) = Migrator::new(list);
    run.step(MigratorEvent::TableReady);
    match run.step(MigratorEvent::Version(None)) {
        MigratorAction::Apply(m) => {
            assert_eq!(m.sql, "create table todo(id INTEGER, title TEXT)")
        }
        other => panic!("unexpected action {:?}", other),
    }
    assert!(matches!(run.step(MigratorEvent::Applied), MigratorAction::Finish));
    flow.step(OpenEvent::Migrated(Ok(())), &mut plugin);
    flow.register(1, &mut registry).unwrap();

    let prepared = prepare(&registry, "sqlite:t1", &Vec::new()).unwrap();
    assert_eq!(prepared.handle.backend, Backend::Sqlite);
    assert_eq!(execute_result(prepared.handle.backend, 1, 1).rows_affected, 1);

    let rows = vec![vec![
        scanned("id", "INTEGER", Some(1), None),
        scanned("title", "TEXT", None, Some("buy milk")),
    ]];
    let decoded = decode_rows(&Dialect::of(prepared.handle.backend), &rows).unwrap();
    assert_eq!(decoded.len(), 1);
    assert_eq!(decoded[0].len(), 2);
    assert_eq!(decoded[0].get("id"), Some(&CanonicalValue::Integer(1)));
    assert_eq!(decoded[0].get("title"), Some(&CanonicalValue::Text(String::from("buy milk"))));
}
