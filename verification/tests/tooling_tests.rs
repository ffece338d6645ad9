use junction_rs::init::{add_dependency_to_manifest, ManifestError};
use junction_rs::cli::{
    delete_record_sql, fetch_applied_sql, find_adapter, migrate_action, record_applied_sql, run, snapshot_diff_lines,
    snapshot_output, status_lines, table_changes, Cli, Commands, MigrateAction, MigrateCmd, MigrationRecord, SchemaCmd,
    SnapshotCmd, Step,
};
use junction_rs::diff::diff_schemas;
use junction_rs::config::{DatabaseConfig, RootConfig};
use junction_rs::init::{
    adapter_default_index, adapter_options, init_config, init_defaults, join_display, select_package, split_csv,
    InitAnswers, InitError, PackageInfo,
};
use junction_rs::migration::{migration_slug, migration_source, plan_migration, render_field, render_ops};
use junction_rs::registry::{discover_migrations, extract_string_arg, parse_op_list, sha256_hex, split_name, MigrationSource};
use junction_rs::schema_ops::{FieldDef, FieldType as OpFieldType, SchemaOp};
use junction_rs::snapshot::{Field, FieldType, Model, SchemaSnapshot};

fn strings(v: &[&str]) -> Vec<String> {
    v.iter().map(|s| s.to_string()).collect()
}

fn model(table: &str, fields: Vec<Field>) -> Model {
    Model { table: table.to_string(), fields }
}

fn snapshot(models: Vec<Model>) -> SchemaSnapshot {
    let mut s = SchemaSnapshot::generated("2024-01-01T00:00:00+00:00".to_string());
    s.models = models;
    s
}

// ---------------------------------------------------------------------------
// Migration files
// ---------------------------------------------------------------------------

#[test]
fn migration_file_names() {
    assert_eq!(split_name("20240101_add_users.rs"), Some(("20240101".to_string(), "add_users".to_string())));
    assert_eq!(split_name("42.rs"), Some(("42".to_string(), "(no_description)".to_string())));
    assert_eq!(split_name("_x.rs"), None);
    assert_eq!(split_name("12_.rs"), None);
    assert_eq!(split_name("abc.rs"), None);
    assert_eq!(split_name("12_x.txt"), None);
}

#[test]
fn checksum_is_sha256_hex() {
    assert_eq!(sha256_hex(""), "e3b0c44298fc1c149afbf4c8996fb92427ae41e4649b934ca495991b7852b855");
    assert_eq!(sha256_hex("abc"), "ba7816bf8f01cfea414140de5dae2223b00361a396177a9cb410ff61f20015ad");
}

#[test]
fn op_lists_read_back_creates_and_drops() {
    let body = r#"SchemaOp::CreateTable { name: "users".into(), fields: vec![] }, SchemaOp::AddField { table: "users".into() }, SchemaOp::DropEdge { name: "likes".into() }, SchemaOp::CreateEdge { name: "follows".into(), from: "a".into(), to: "b".into(), fields: vec![] }, SchemaOp::DropTable { name: "old".into() }"#;
    let ops = parse_op_list(body);
    assert_eq!(ops.len(), 4);
    assert!(matches!(&ops[0], SchemaOp::CreateTable { name, fields } if name == "users" && fields.is_empty()));
    assert!(matches!(&ops[1], SchemaOp::DropEdge { name } if name == "likes"));
    assert!(matches!(&ops[2], SchemaOp::CreateEdge { name, from, to, .. } if name == "follows" && from.is_empty() && to.is_empty()));
    assert!(matches!(&ops[3], SchemaOp::DropTable { name } if name == "old"));
    assert_eq!(extract_string_arg(r#"DropTable { name: "t_1" }"#), Some("t_1".to_string()));
    assert_eq!(extract_string_arg(r#"DropTable { name: "bad-name" }"#), None);
}

#[test]
fn discovered_migrations_are_ordered_by_id() {
    let up = |name: &str| {
        format!(
            "async fn up(&self) -> anyhow::Result<Vec<SchemaOp>> {{\n        Ok(vec![SchemaOp::CreateTable {{ name: \"{}\".into(), fields: vec![] }}])\n    }}\n    async fn down(&self) -> anyhow::Result<Vec<SchemaOp>> {{\n        Ok(vec![SchemaOp::DropTable {{ name: \"{}\".into() }}])\n    }}",
            name, name
        )
    };
    let sources = vec![
        MigrationSource { file_name: "20_second.rs".into(), path: "migrations/20_second.rs".into(), content: up("b") },
        MigrationSource { file_name: "notes.txt".into(), path: "migrations/notes.txt".into(), content: String::new() },
        MigrationSource { file_name: "10_first.rs".into(), path: "migrations/10_first.rs".into(), content: up("a") },
    ];
    let found = discover_migrations(&sources).unwrap();
    assert_eq!(found.len(), 2);
    assert_eq!(found[0].id, "10");
    assert_eq!(found[0].description, "first");
    assert_eq!(found[1].id, "20");
    assert_eq!(found[0].path, "migrations/10_first.rs");
    assert_eq!(found[0].checksum, sha256_hex(&up("a")));
    assert!(matches!(&found[0].ops_forward[0], SchemaOp::CreateTable { name, .. } if name == "a"));
    assert!(matches!(&found[0].ops_reverse[0], SchemaOp::DropTable { name } if name == "a"));
}

// ---------------------------------------------------------------------------
// Rendering and planning migrations
// ---------------------------------------------------------------------------

#[test]
fn rendered_operations() {
    let f = FieldDef { name: "age".into(), ty: OpFieldType::Int64, primary: false };
    assert_eq!(render_field(&f), "FieldDef { name: \"age\".into(), ty: FieldType::Int64, primary: false }");
    let ops = vec![
        SchemaOp::CreateTable {
            name: "users".into(),
            fields: vec![
                FieldDef { name: "id".into(), ty: OpFieldType::String, primary: true },
                FieldDef { name: "x".into(), ty: OpFieldType::Other("Custom".into()), primary: false },
            ],
        },
        SchemaOp::DropField { table: "users".into(), field: "old".into() },
    ];
    assert_eq!(
        render_ops(&ops),
        "[SchemaOp::CreateTable { name: \"users\".into(), fields: vec![FieldDef { name: \"id\".into(), ty: FieldType::String, primary: true }, FieldDef { name: \"x\".into(), ty: FieldType::Other(\"Custom\".into()), primary: false }] }, SchemaOp::DropField { table: \"users\".into(), field: \"old\".into() }]"
    );
    assert_eq!(render_ops(&[]), "[]");
}

#[test]
fn rendered_operations_read_back() {
    let ops = vec![
        SchemaOp::CreateTable { name: "users".into(), fields: vec![] },
        SchemaOp::DropEdge { name: "likes".into() },
    ];
    let code = render_ops(&ops);
    let back = parse_op_list(&code);
    assert_eq!(back.len(), 2);
    assert!(matches!(&back[0], SchemaOp::CreateTable { name, .. } if name == "users"));
    assert!(matches!(&back[1], SchemaOp::DropEdge { name } if name == "likes"));
}

#[test]
fn migration_names_and_sources() {
    assert_eq!(migration_slug("Add Users Table"), "add_users_table");
    let src = migration_source("17", "add_users", "[]", "[X]");
    assert!(src.starts_with("// Auto-generated migration based on schema diff\n"));
    assert!(src.contains("pub struct Migration17;"));
    assert!(src.contains("fn description(&self) -> &'static str { \"add_users\" }"));
    assert!(src.contains("Ok(vec![])"));
    assert!(src.contains("Ok(vec![X])"));
    assert!(src.ends_with("}\n"));
}

#[test]
fn planning_a_migration() {
    let old = snapshot(vec![]);
    let new = snapshot(vec![model("users", vec![Field { name: "id".into(), ty: FieldType::String, primary: true }])]);
    let plan = plan_migration(&old, &new, "100", "Add users").unwrap();
    assert_eq!(plan.file_name, "migrations/100_add_users.rs");
    assert_eq!(plan.op_count, 1);
    assert!(plan.source.contains("SchemaOp::CreateTable { name: \"users\".into()"));
    assert!(plan.source.contains("SchemaOp::DropTable { name: \"users\".into() }"));
    assert!(plan_migration(&new, &new, "101", "noop").is_none());
}

// ---------------------------------------------------------------------------
// init
// ---------------------------------------------------------------------------

#[test]
fn csv_answers() {
    assert_eq!(split_csv(" a, b ,,c "), strings(&["a", "b", "c"]));
    assert_eq!(split_csv(""), Vec::<String>::new());
    assert_eq!(join_display(&strings(&["x", "y"])), "x, y");
    assert_eq!(join_display(&Vec::new()), "");
    let values = strings(&["crates/**/*.rs", ".*", "src/lib.rs"]);
    assert_eq!(split_csv(&join_display(&values)), values);
}

fn pkg(id: &str, name: &str, manifest: &str) -> PackageInfo {
    PackageInfo { id: id.into(), name: name.into(), manifest_path: manifest.into(), display_path: manifest.into() }
}

#[test]
fn package_selection() {
    let packages = vec![pkg("3", "zeta", "z/Cargo.toml"), pkg("1", "alpha", "a/Cargo.toml"), pkg("9", "other", "o/Cargo.toml")];
    let members = strings(&["1", "3"]);
    let choice = select_package(&packages, &members, Some("z/Cargo.toml")).unwrap();
    let names: Vec<&str> = choice.packages.iter().map(|p| p.name.as_str()).collect();
    assert_eq!(names, vec!["alpha", "zeta"]);
    assert_eq!(choice.default_index, 1);
    assert_eq!(choice.options, strings(&["alpha (a/Cargo.toml)", "zeta (z/Cargo.toml)"]));
    let none = select_package(&packages, &strings(&["7"]), None).err().unwrap();
    assert_eq!(none, InitError::NoPackages);
    assert_eq!(none.message(), "No packages found in workspace to configure");
    let unknown = select_package(&packages, &members, Some("q/Cargo.toml")).unwrap();
    assert_eq!(unknown.default_index, 0);
}

#[test]
fn init_defaults_and_answers() {
    let d = init_defaults("my_pkg");
    assert_eq!(d.project_name, "my_pkg");
    assert_eq!(d.paths, "crates/**/*.rs");
    assert_eq!(d.included, ".*");
    assert_eq!(d.excluded, "");
    assert_eq!(d.migrations_dir, "migrations");
    assert_eq!(d.adapter_index, 0);
    assert_eq!((d.db_url.as_str(), d.db_namespace.as_str(), d.db_database.as_str()), ("memory", "test", "test"));
    assert_eq!(adapter_options(), strings(&["surreal"]));
    assert_eq!(adapter_default_index(&strings(&["a", "b"]), "b"), 1);
    assert_eq!(adapter_default_index(&strings(&["a", "b"]), "c"), 0);

    let cfg = init_config(InitAnswers {
        project_name: "proj".into(),
        paths: "src/*.rs, lib/*.rs".into(),
        included: ".*".into(),
        excluded: "Test.*".into(),
        migrations_dir: "db/migrations".into(),
        adapter_index: 0,
        db_url: "ws://localhost:8000".into(),
        db_namespace: "ns".into(),
        db_database: "db".into(),
    });
    assert_eq!(cfg.project.name.as_deref(), Some("proj"));
    assert_eq!(cfg.models.paths, strings(&["src/*.rs", "lib/*.rs"]));
    assert_eq!(cfg.models.excluded, strings(&["Test.*"]));
    assert_eq!(cfg.migrations.dir, "db/migrations");
    assert_eq!(cfg.migrations.naming, "timestamp");
    assert_eq!(cfg.database.adapter, "surreal");
    assert_eq!(cfg.database.url.as_deref(), Some("ws://localhost:8000"));
}

#[test]
fn default_configuration() {
    let c = RootConfig::default();
    assert_eq!(c.project.name, None);
    assert_eq!(c.models.paths, strings(&["crates/**/*.rs"]));
    assert_eq!(c.models.included, strings(&[".*"]));
    assert!(c.models.excluded.is_empty());
    assert_eq!(c.migrations.dir, "migrations");
    assert_eq!(c.database.adapter, "surreal");
    assert_eq!(c.database.namespace.as_deref(), Some("test"));
    assert!(c.schema.capture_fields && c.schema.capture_edge_relationships);
}

#[test]
fn manifest_dependency_added_once() {
    let mut table = toml_edit::Table::new();
    assert!(junction_rs::init::add_dependency_if_missing(&mut table, "junction-rs", "0.1"));
    assert!(!junction_rs::init::add_dependency_if_missing(&mut table, "junction-rs", "0.2"));
    assert_eq!(table.get("junction-rs").unwrap().as_str(), Some("0.1"));
}

// ---------------------------------------------------------------------------
// Commands
// ---------------------------------------------------------------------------

#[test]
fn run_steps() {
    let step = run(Cli { config: Some("j.toml".into()), command: Commands::Init });
    assert!(matches!(step, Step::Init { config: Some(ref c) } if c == "j.toml"));
    let step = run(Cli { config: None, command: Commands::Schema { cmd: SchemaCmd::Inspect } });
    assert!(matches!(step, Step::Schema { config: None, cmd: SchemaCmd::Inspect }));
    let step = run(Cli { config: None, command: Commands::Snapshot { cmd: SnapshotCmd::Diff } });
    assert!(matches!(step, Step::Snapshot { cmd: SnapshotCmd::Diff, .. }));
}

#[test]
fn migrate_actions() {
    assert!(matches!(migrate_action(MigrateCmd::List), MigrateAction::Print(ref l) if l == "[stub] migrate list"));
    assert!(matches!(
        migrate_action(MigrateCmd::Apply { to: Some("5".into()), dry_run: true }),
        MigrateAction::Print(ref l) if l == "[stub] migrate apply to=Some(\"5\") dry_run=true"
    ));
    assert!(matches!(
        migrate_action(MigrateCmd::Revert { id: None }),
        MigrateAction::Print(ref l) if l == "[stub] migrate revert id=None"
    ));
    assert!(matches!(migrate_action(MigrateCmd::New { name: "x".into() }), MigrateAction::NewMigration { ref name } if name == "x"));
    assert!(matches!(migrate_action(MigrateCmd::Status), MigrateAction::Status));
}

#[test]
fn adapters_and_status() {
    let names = strings(&["surreal", "pg"]);
    assert_eq!(find_adapter(&names, "pg"), Ok(1));
    assert_eq!(find_adapter(&names, "mysql"), Err("adapter 'mysql' not registered".to_string()));
    assert_eq!(
        status_lines(&names, "pg"),
        strings(&["registered adapters:", " - surreal", " - pg", "configured adapter 'pg' found"])
    );
    assert_eq!(
        status_lines(&Vec::new(), "surreal"),
        strings(&[
            "no adapters registered. add a crate that calls register_adapter!(...) to enable database operations.",
            "configured adapter 'surreal' is missing from registry",
        ])
    );
}

#[test]
fn snapshot_table_diff() {
    let current = snapshot(vec![model("a", vec![]), model("b", vec![]), model("b", vec![])]);
    let latest = snapshot(vec![model("b", vec![]), model("c", vec![]), model("c", vec![])]);
    let (added, removed) = table_changes(&current, &latest);
    assert_eq!(added, strings(&["c"]));
    assert_eq!(removed, strings(&["a"]));
    assert_eq!(snapshot_diff_lines(&current, &latest), strings(&["+ table c", "- table a", "(basic diff complete)"]));
    assert_eq!(snapshot_output(None), "schema.snapshot.json");
    assert_eq!(snapshot_output(Some("out.json".into())), "out.json");
}

#[test]
fn state_statements_and_connection() {
    assert_eq!(fetch_applied_sql(), "SELECT * FROM __junction_migrations");
    let rec = MigrationRecord { id: "42".into(), applied_at: "2024".into(), checksum: "c".into() };
    assert_eq!(
        record_applied_sql(&rec),
        "CREATE __junction_migrations:42 SET applied_at = $applied_at, checksum = $checksum"
    );
    assert_eq!(delete_record_sql("42"), "DELETE __junction_migrations:42");
    let mut db = DatabaseConfig::default();
    assert_eq!(junction_rs::cli::connection_url(&db), "memory");
    assert_eq!(junction_rs::cli::namespace_selection(&db), Some(("test".to_string(), "test".to_string())));
    db.database = None;
    db.url = None;
    assert_eq!(junction_rs::cli::connection_url(&db), "memory");
    assert_eq!(junction_rs::cli::namespace_selection(&db), None);
}

// ---------------------------------------------------------------------------
// Schema diffs
// ---------------------------------------------------------------------------

fn fld(name: &str, ty: FieldType) -> Field {
    Field { name: name.into(), ty, primary: name == "id" }
}

#[test]
fn diff_creates_drops_and_changes_fields() {
    let current = snapshot(vec![
        model("users", vec![fld("id", FieldType::String), fld("age", FieldType::Int64)]),
        model("old", vec![]),
    ]);
    let target = snapshot(vec![
        model("users", vec![fld("id", FieldType::String), fld("email", FieldType::String)]),
        model("posts", vec![fld("id", FieldType::Uuid)]),
    ]);
    let d = diff_schemas(&current, &target);
    let fwd: Vec<String> = d.ops_forward.iter().map(|o| format!("{:?}", o)).collect();
    assert_eq!(d.ops_forward.len(), 4);
    assert!(matches!(&d.ops_forward[0], SchemaOp::CreateTable { name, fields } if name == "posts" && fields.len() == 1), "{:?}", fwd);
    assert!(matches!(&d.ops_forward[1], SchemaOp::DropTable { name } if name == "old"), "{:?}", fwd);
    assert!(matches!(&d.ops_forward[2], SchemaOp::AddField { table, field } if table == "users" && field.name == "email"), "{:?}", fwd);
    assert!(matches!(&d.ops_forward[3], SchemaOp::DropField { table, field } if table == "users" && field == "age"), "{:?}", fwd);
    // The reverse operations undo the forward ones.
    let back = diff_schemas(&target, &current);
    assert_eq!(back.ops_forward.len(), d.ops_reverse.len());
    // Diffing the other way round exchanges forward and reverse operations, up to order.
    let sorted = |ops: &Vec<SchemaOp>| {
        let mut v: Vec<String> = ops.iter().map(|o| format!("{:?}", o)).collect();
        v.sort();
        v
    };
    assert_eq!(sorted(&back.ops_forward), sorted(&d.ops_reverse));
    assert_eq!(sorted(&back.ops_reverse), sorted(&d.ops_forward));
    assert_eq!(d.ops_forward.len(), d.ops_reverse.len());
    let same = diff_schemas(&current, &current);
    assert!(same.ops_forward.is_empty() && same.ops_reverse.is_empty());
}

#[test]
fn manifest_dependency_is_added_once() {
    let manifest = "[package]\nname = \"demo\"\n\n[dependencies]\nserde = \"1\"\n";
    let edited = add_dependency_to_manifest(manifest, "junction-rs", "0.1").unwrap().unwrap();
    let doc: toml_edit::DocumentMut = edited.parse().unwrap();
    let deps = doc["dependencies"].as_table().unwrap();
    assert_eq!(deps["serde"].as_str(), Some("1"));
    assert_eq!(deps["junction-rs"].as_str(), Some("0.1"));
    assert_eq!(doc["package"]["name"].as_str(), Some("demo"));
    assert!(edited.starts_with("[package]\nname = \"demo\"\n"));
    assert_eq!(add_dependency_to_manifest(&edited, "junction-rs", "0.2"), Ok(None));

    let bare = add_dependency_to_manifest("[package]\nname = \"x\"\n", "junction-rs", "0.1").unwrap().unwrap();
    let doc: toml_edit::DocumentMut = bare.parse().unwrap();
    assert_eq!(doc["dependencies"]["junction-rs"].as_str(), Some("0.1"));

    assert_eq!(add_dependency_to_manifest("dependencies = 3\n", "junction-rs", "0.1"), Err(ManifestError::NotATable));
    assert_eq!(ManifestError::NotATable.message(), "dependencies section is not a table");
    assert!(matches!(add_dependency_to_manifest("[package\n", "junction-rs", "0.1"), Err(ManifestError::Parse(m)) if !m.is_empty()));
}

#[test]
fn fresh_snapshot_is_stamped_in_utc() {
    let s = SchemaSnapshot::new();
    assert_eq!(s.version, 1);
    assert!(s.generated_at.len() >= 25);
    assert!(s.generated_at.ends_with("+00:00"));
    assert_eq!(s.generated_at.as_bytes()[10], b'T');
}
