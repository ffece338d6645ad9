use std::collections::HashMap;

use junction_rs::scanner::{
    extract_struct_block, fields_from_captures, infer_endpoint_from_type, is_path_selected, map_type, scan_sources, ScanOptions, SourceFile,
};
use junction_rs::snapshot::{FieldType, SchemaSnapshot};

fn file(path: &str, content: &str) -> SourceFile {
    SourceFile { path: format!("/tmp/junction_scan_test/{}", path), content: content.to_string() }
}

fn scan(files: Vec<SourceFile>, paths: &[&str], included: &[&str], excluded: &[&str]) -> SchemaSnapshot {
    let opts = ScanOptions {
        root: "/tmp/junction_scan_test".to_string(),
        paths: paths.iter().map(|s| s.to_string()).collect(),
        included: included.iter().map(|s| s.to_string()).collect(),
        excluded: excluded.iter().map(|s| s.to_string()).collect(),
    };
    scan_sources(&opts, &files).unwrap()
}

#[test]
fn scan_single_node_basic() {
    let files = vec![file(
        "person.rs",
        r#"
      #[derive(Node)]
      #[ogm(table = "people")]
      pub struct Person {
        pub id: String,
        pub name: String,
        pub age: i32,
      }
    "#,
    )];
    let snap = scan(files, &["person.rs"], &[], &[]);
    assert_eq!(snap.models.len(), 1);
    let m = &snap.models[0];
    assert_eq!(m.table, "people");
    assert_eq!(m.fields.len(), 3);
    let mut map = HashMap::new();
    for f in &m.fields {
        map.insert(f.name.clone(), (&f.ty, f.primary));
    }
    assert_eq!(map.get("id").unwrap().1, true);
    assert!(matches!(map.get("age").unwrap().0, FieldType::Int64));
    assert!(matches!(map.get("name").unwrap().0, FieldType::String));
}

#[test]
fn scan_edge_with_from_to_and_fields() {
    let files = vec![file(
        "edges.rs",
        r#"
      #[derive(Edge)]
      #[ogm(table = "friend_edge")]
      pub struct Friend {
        pub id: String,
        pub strength: i32,
        r#in: SimpleId<Person>,
        r#out: SimpleId<Person>,
      }
    "#,
    )];
    let snap = scan(files, &["edges.rs"], &[], &[]);
    assert_eq!(snap.edges.len(), 1);
    let e = &snap.edges[0];
    assert_eq!(e.table, "friend_edge");
    assert_eq!(e.from, "Person");
    assert_eq!(e.to, "Person");
    assert_eq!(e.fields.len(), 2);
    assert!(e.fields.iter().any(|f| f.name == "strength" && matches!(f.ty, FieldType::Int64)));
}

#[test]
fn include_and_exclude_patterns() {
    let files = vec![
        file(
            "a.rs",
            r#"
      #[derive(Node)]
      pub struct Alpha { pub id: String, }
    "#,
        ),
        file(
            "b.rs",
            r#"
      #[derive(Node)]
      pub struct BetaIgnore { pub id: String, }
    "#,
        ),
    ];
    let snap = scan(files, &[".rs"], &["A.*"], &[".*Ignore"]);
    assert_eq!(snap.models.len(), 1);
    assert_eq!(snap.models[0].table, "alpha");
}

#[test]
fn path_filtering_only_matches_subset() {
    let files = vec![
        file(
            "one.rs",
            r#"
      #[derive(Node)]
      pub struct One { pub id: String, }
    "#,
        ),
        file(
            "two.rs",
            r#"
      #[derive(Node)]
      pub struct Two { pub id: String, }
    "#,
        ),
    ];
    let snap = scan(files, &["two.rs"], &[], &[]);
    assert_eq!(snap.models.len(), 1);
    assert_eq!(snap.models[0].table, "two");
}

#[test]
fn table_and_edge_fallbacks() {
    let files = vec![file(
        "fallback.rs",
        r#"
      #[derive(Node)]
      pub struct PlainNode { pub id: String, }

      #[derive(Edge)]
      pub struct PlainEdge { pub id: String, }
    "#,
    )];
    let snap = scan(files, &["fallback.rs"], &[], &[]);
    assert_eq!(snap.models.len(), 1);
    assert_eq!(snap.models[0].table, "plainnode");
    assert_eq!(snap.edges.len(), 1);
    let e = &snap.edges[0];
    assert_eq!(e.table, "plainedge");
    assert_eq!(e.from, "unknown_from");
    assert_eq!(e.to, "unknown_to");
}

#[test]
fn does_not_leak_fields_from_following_struct() {
    let files = vec![file(
        "multi.rs",
        r#"
      #[derive(Node)]
      pub struct First {
        pub id: String,
        pub x: i32,
      }

      pub struct Second {
        pub unrelated: bool,
      }
    "#,
    )];
    let snap = scan(files, &["multi.rs"], &[], &[]);
    assert_eq!(snap.models.len(), 1);
    let m = &snap.models[0];
    assert_eq!(m.fields.len(), 2);
    assert!(m.fields.iter().any(|f| f.name == "x"));
    assert!(!m.fields.iter().any(|f| f.name == "unrelated"));
}

#[test]
fn comprehensive_type_mapping() {
    let files = vec![file(
        "types.rs",
        r#"
      #[derive(Node)]
      pub struct TypeNode {
        pub id: String,
        pub a: i32,
        pub b: u64,
        pub c: f32,
        pub d: bool,
        pub e: DateTime<Utc>,
        pub f: uuid::Uuid,
        pub g: serde_json::Value,
        pub h: CustomType,
      }
    "#,
    )];
    let snap = scan(files, &["types.rs"], &[], &[]);
    let m = &snap.models[0];
    let mut map: HashMap<String, &FieldType> = HashMap::new();
    for f in &m.fields {
        map.insert(f.name.clone(), &f.ty);
    }
    assert!(matches!(map.get("a").unwrap(), FieldType::Int64));
    assert!(matches!(map.get("b").unwrap(), FieldType::Int64));
    assert!(matches!(map.get("c").unwrap(), FieldType::Float64));
    assert!(matches!(map.get("d").unwrap(), FieldType::Bool));
    assert!(matches!(map.get("e").unwrap(), FieldType::DateTime));
    assert!(matches!(map.get("f").unwrap(), FieldType::Uuid));
    assert!(matches!(map.get("g").unwrap(), FieldType::Json));
    assert!(matches!(map.get("h").unwrap(), FieldType::Other(s) if s == "CustomType"));
}

#[test]
fn struct_block_nesting_and_absence() {
    let src = "pub struct A { pub x: Vec<{ inner }>, pub y: i32, } struct B { z: u8 }";
    assert_eq!(extract_struct_block(src, "A").unwrap(), " pub x: Vec<{ inner }>, pub y: i32, ");
    assert_eq!(extract_struct_block(src, "B").unwrap(), " z: u8 ");
    assert_eq!(extract_struct_block(src, "C"), None);
    assert_eq!(extract_struct_block("struct D;", "D"), None);
}

#[test]
fn endpoint_inference() {
    assert_eq!(infer_endpoint_from_type("SimpleId<Person>").as_deref(), Some("Person"));
    assert_eq!(infer_endpoint_from_type(" Option<SimpleId<crate::model::Person>> ").as_deref(), Some("Person"));
    assert_eq!(infer_endpoint_from_type("&Person").as_deref(), Some("Person"));
    assert_eq!(infer_endpoint_from_type("Vec<Person").as_deref(), None);
    assert_eq!(infer_endpoint_from_type("<>").as_deref(), None);
    assert_eq!(infer_endpoint_from_type("a:::b").as_deref(), Some(":b"));
}

#[test]
fn edge_endpoints_from_attribute_win() {
    let files = vec![file(
        "attr.rs",
        r#"
      #[derive(Edge)]
      #[ogm(table = "likes", from = User, to = Post)]
      pub struct Likes {
        r#in: SimpleId<Person>,
        r#out: SimpleId<Person>,
      }
    "#,
    )];
    let snap = scan(files, &["attr.rs"], &[], &[]);
    assert_eq!(snap.edges[0].from, "User");
    assert_eq!(snap.edges[0].to, "Post");
    assert_eq!(snap.version, 1);
}

#[test]
fn unreadable_endpoint_type_fails_the_scan() {
    let files = vec![file(
        "bad.rs",
        r#"
      #[derive(Edge)]
      pub struct Bad {
        r#in: A>B<C,
      }
    "#,
    )];
    let opts = ScanOptions {
        root: ".".to_string(),
        paths: vec!["bad.rs".to_string()],
        included: vec![],
        excluded: vec![],
    };
    assert!(scan_sources(&opts, &files).is_none());
}

#[test]
fn path_patterns_strip_stars() {
    assert!(is_path_selected("crates/core/src/model.rs", &vec!["crates/**/*.rs".to_string()]) == false);
    assert!(is_path_selected("src/model.rs", &vec!["*model.rs*".to_string()]));
    assert!(is_path_selected("anything", &vec!["***".to_string()]));
    assert!(!is_path_selected("anything", &vec![]));
}

#[test]
fn type_names_map_to_columns() {
    assert!(matches!(map_type("&str"), FieldType::String));
    assert!(matches!(map_type("usize"), FieldType::Int64));
    assert!(matches!(map_type("DateTime"), FieldType::DateTime));
    assert!(matches!(map_type("Option<Uuid>"), FieldType::Uuid));
    assert!(matches!(map_type("Vec<serde_json::Value>"), FieldType::Json));
    assert!(matches!(map_type("Option<i32>"), FieldType::Other(ref s) if s == "Option<i32>"));
}

#[test]
fn fields_are_read_from_field_matches() {
    let cap = |whole: &str, name: &str, ty: &str| vec![Some(whole.to_string()), Some(name.to_string()), Some(ty.to_string())];
    let caps = vec![cap("pub id: String,", "id", "String"), cap("pub age: i32,", "age", " i32 ")];
    let fields = fields_from_captures(&caps).unwrap();
    assert_eq!(fields.len(), 2);
    assert_eq!(fields[0].name, "id");
    assert!(fields[0].primary);
    assert!(matches!(fields[0].ty, FieldType::String));
    assert_eq!(fields[1].name, "age");
    assert!(!fields[1].primary);
    assert!(matches!(fields[1].ty, FieldType::Int64));
    let broken = vec![vec![Some("pub x".to_string()), None, Some("u8".to_string())]];
    assert!(fields_from_captures(&broken).is_none());
    assert_eq!(fields_from_captures(&vec![]).unwrap().len(), 0);
}
