use junction_rs::derive::{
    derive_edge, derive_node, AttrForm, Attribute, DeriveError, FieldDecl, GenericArg, IdConstructor, MetaItem, MetaValue,
    StructDef, TypeExpr, TypeSegment,
};
use junction_rs::id::SimpleId;

fn seg(ident: &str, args: Vec<GenericArg>) -> TypeSegment {
    TypeSegment { ident: ident.to_string(), args }
}

fn plain(path: &[&str]) -> TypeExpr {
    TypeExpr::Path(path.iter().map(|p| seg(p, vec![])).collect())
}

fn generic(path: &[&str], inner: TypeExpr) -> TypeExpr {
    let mut segs: Vec<TypeSegment> = path.iter().map(|p| seg(p, vec![])).collect();
    let last = segs.len() - 1;
    segs[last].args = vec![GenericArg::Type(inner)];
    TypeExpr::Path(segs)
}

fn junction(items: Vec<(&str, MetaValue)>) -> Attribute {
    Attribute {
        path: "junction".to_string(),
        form: AttrForm::List,
        items: items.into_iter().map(|(k, v)| MetaItem { key: k.to_string(), value: v }).collect(),
    }
}

fn field(ident: &str, ty: TypeExpr, attrs: Vec<Attribute>) -> FieldDecl {
    FieldDecl { ident: ident.to_string(), ty, attrs }
}

fn def(name: &str, attrs: Vec<Attribute>, fields: Vec<FieldDecl>) -> StructDef {
    StructDef { name: name.to_string(), attrs, named_fields: true, fields }
}

fn last_ident(t: &TypeExpr) -> String {
    match t {
        TypeExpr::Path(segs) => segs.last().unwrap().ident.clone(),
        TypeExpr::Other(s) => s.clone(),
    }
}

/// `struct Person { name: String, age: i32 }` deriving `Node`.
fn person() -> StructDef {
    def("Person", vec![], vec![field("name", plain(&["String"]), vec![]), field("age", plain(&["i32"]), vec![])])
}

/// `struct Follows { id: String, #[junction(source)] follower: SimpleId<User>,
/// #[junction(target)] following: SimpleId<User>, since: chrono::DateTime<chrono::Utc> }`.
fn follows() -> StructDef {
    def(
        "Follows",
        vec![],
        vec![
            field("id", plain(&["String"]), vec![]),
            field("follower", generic(&["SimpleId"], plain(&["User"])), vec![junction(vec![("source", MetaValue::Absent)])]),
            field("following", generic(&["SimpleId"], plain(&["User"])), vec![junction(vec![("target", MetaValue::Absent)])]),
            field("since", generic(&["chrono", "DateTime"], plain(&["chrono", "Utc"])), vec![]),
        ],
    )
}

#[test]
fn edge_macro_sets_table_and_schema_columns() {
    let e = derive_edge(&follows()).unwrap();
    assert_eq!(e.table, "follows");

    let id = e.column("id").unwrap();
    assert_eq!(id.table, e.table);
    assert_eq!(id.column, "id");
    let follower = e.column("follower").unwrap();
    assert_eq!(follower.table, e.table);
    assert_eq!(follower.column, "follower");
    let following = e.column("following").unwrap();
    assert_eq!(following.table, e.table);
    assert_eq!(following.column, "following");
    assert_eq!(e.column("since").unwrap().column, "since");
}

#[test]
fn node_macro_sets_table_and_schema_columns() {
    let n = derive_node(&person());
    assert_eq!(n.table, "person");

    let id = n.column("id").unwrap();
    assert_eq!(id.table, n.table);
    assert_eq!(id.column, "id");
    let name = n.column("name").unwrap();
    assert_eq!(name.table, n.table);
    assert_eq!(name.column, "name");
    let age = n.column("age").unwrap();
    assert_eq!(age.table, n.table);
    assert_eq!(age.column, "age");
}

struct Person;

#[test]
fn node_macro_provides_simple_id_constructor() {
    let n = derive_node(&person());
    assert_eq!(n.constructors, vec![IdConstructor::CreateSimpleId, IdConstructor::FromUuid]);
    assert_eq!(n.constructors[0].name(), "create_simple_id");
    assert_eq!(n.constructors[1].name(), "from_uuid");
    // The body the derive gives `Person::create_simple_id()`.
    let _id = SimpleId::<Person>::new();
    let e = derive_edge(&follows()).unwrap();
    assert_eq!(e.constructors, vec![IdConstructor::CreateSimpleId, IdConstructor::FromUuid]);
}

/// `struct MissingIn { r#out: SimpleId<MissingIn> }` and
/// `struct WrongType { r#in: bool, r#out: bool }` deriving `Edge`.
#[test]
fn edge_validation_errors_are_reported() {
    let missing_in = def("MissingIn", vec![], vec![field("r#out", generic(&["SimpleId"], plain(&["MissingIn"])), vec![])]);
    assert!(derive_edge(&missing_in).is_err());
    let wrong_type = def(
        "WrongType",
        vec![],
        vec![field("r#in", plain(&["bool"]), vec![]), field("r#out", plain(&["bool"]), vec![])],
    );
    assert!(derive_edge(&wrong_type).is_err());
}

#[test]
fn edge_endpoints_and_field_names() {
    let e = derive_edge(&follows()).unwrap();
    assert_eq!(last_ident(&e.source_type), "User");
    assert_eq!(last_ident(&e.target_type), "User");
    assert_eq!(e.endpoint_field_names(), ("follower", "following"));
    assert_eq!(last_ident(&e.id_type), "String");
    let cols: Vec<&str> = e.columns.iter().map(|c| c.column.as_str()).collect();
    assert_eq!(cols, vec!["id", "follower", "following", "since", "in", "out"]);
}

/// `struct Knows { #[junction(source)] src: SimpleId<Person>, #[junction(target)]
/// dst: SimpleId<Person>, weight: f64 }`: no `id`, `in` or `out` field.
#[test]
fn edge_without_endpoint_fields_still_has_in_and_out_columns() {
    let knows = def(
        "Knows",
        vec![],
        vec![
            field("src", generic(&["SimpleId"], plain(&["Person"])), vec![junction(vec![("source", MetaValue::Absent)])]),
            field("dst", generic(&["SimpleId"], plain(&["Person"])), vec![junction(vec![("target", MetaValue::Absent)])]),
            field("weight", plain(&["f64"]), vec![]),
        ],
    );
    let e = derive_edge(&knows).unwrap();
    let cols: Vec<&str> = e.columns.iter().map(|c| c.column.as_str()).collect();
    assert_eq!(cols, vec!["id", "src", "dst", "weight", "in", "out"]);
    let inn = e.column("r#in").unwrap();
    assert_eq!(inn.table, "knows");
    assert_eq!(inn.column, "in");
    assert_eq!(last_ident(&inn.ty), "SimpleId");
    let out = e.column("r#out").unwrap();
    assert_eq!(out.table, "knows");
    assert_eq!(out.column, "out");

    let declared = def(
        "Follows2",
        vec![],
        vec![
            field("r#in", generic(&["SimpleId"], plain(&["Person"])), vec![junction(vec![("source", MetaValue::Absent)])]),
            field("r#out", generic(&["SimpleId"], plain(&["Person"])), vec![junction(vec![("target", MetaValue::Absent)])]),
        ],
    );
    let e = derive_edge(&declared).unwrap();
    let cols: Vec<&str> = e.columns.iter().map(|c| c.column.as_str()).collect();
    assert_eq!(cols, vec!["id", "in", "out"]);
}

#[test]
fn default_table_name_is_snake_case() {
    let n = derive_node(&def("FollowEdge", vec![], vec![]));
    assert_eq!(n.table, "follow_edge");
    let n = derive_node(&def("HTTPServer2Config", vec![], vec![]));
    assert_eq!(n.table, "httpserver2_config");
    assert_eq!(junction_rs::derive::default_table_name("ABC"), "abc");
}

#[test]
fn node_table_attribute_string_and_path() {
    let n = derive_node(&def("User", vec![junction(vec![("table", MetaValue::Str("user".into()))])], vec![]));
    assert_eq!(n.table, "user");
    let n = derive_node(&def(
        "User",
        vec![junction(vec![("table", MetaValue::Path(vec!["crate".into(), "accounts".into()]))])],
        vec![],
    ));
    assert_eq!(n.table, "accounts");
    // A `table` item followed by another takes the rest as its value, which names nothing.
    let n = derive_node(&def(
        "Account",
        vec![junction(vec![("table", MetaValue::Str("user".into())), ("other", MetaValue::Absent)])],
        vec![],
    ));
    assert_eq!(n.table, "account");
}

#[test]
fn node_default_id_type_is_simple_id_of_struct() {
    let n = derive_node(&person());
    match &n.id_type {
        TypeExpr::Path(segs) => {
            let idents: Vec<&str> = segs.iter().map(|s| s.ident.as_str()).collect();
            assert_eq!(idents, vec!["junction_rs", "id", "SimpleId"]);
            match &segs[2].args[0] {
                GenericArg::Type(t) => assert_eq!(last_ident(t), "Person"),
                GenericArg::Other(_) => panic!("expected a type argument"),
            }
        }
        TypeExpr::Other(_) => panic!("expected a path"),
    }
    // A node column keeps the raw prefix of its identifier.
    let n = derive_node(&def("Thing", vec![], vec![field("r#type", plain(&["String"]), vec![])]));
    assert_eq!(n.column("r#type").unwrap().column, "r#type");
}

#[test]
fn edge_errors_each_variant() {
    let src = || field("a", generic(&["SimpleId"], plain(&["N"])), vec![junction(vec![("source", MetaValue::Absent)])]);
    let tgt = || field("b", generic(&["SimpleId"], plain(&["N"])), vec![junction(vec![("target", MetaValue::Absent)])]);
    let err = |d: StructDef| derive_edge(&d).err().unwrap();

    assert_eq!(err(def("E", vec![], vec![tgt()])), DeriveError::MissingSource);
    assert_eq!(err(def("E", vec![], vec![src()])), DeriveError::MissingTarget);
    assert_eq!(err(def("E", vec![], vec![src(), src(), tgt()])), DeriveError::MultipleSources);
    assert_eq!(err(def("E", vec![], vec![src(), tgt(), tgt()])), DeriveError::MultipleTargets);
    let bad_src = field("a", plain(&["bool"]), vec![junction(vec![("source", MetaValue::Absent)])]);
    assert_eq!(err(def("E", vec![], vec![bad_src, tgt()])), DeriveError::UnknownSourceType);
    let bad_tgt = field("b", plain(&["bool"]), vec![junction(vec![("target", MetaValue::Absent)])]);
    assert_eq!(err(def("E", vec![], vec![src(), bad_tgt])), DeriveError::UnknownTargetType);
    let dup = field(
        "a",
        generic(&["SimpleId"], plain(&["N"])),
        vec![junction(vec![("source", MetaValue::Absent), ("source", MetaValue::Absent)])],
    );
    assert_eq!(err(def("E", vec![], vec![dup, tgt()])), DeriveError::DuplicateSource);
    let dup_t = field(
        "b",
        generic(&["SimpleId"], plain(&["N"])),
        vec![junction(vec![("target", MetaValue::Absent)]), junction(vec![("target", MetaValue::Absent)])],
    );
    assert_eq!(err(def("E", vec![], vec![src(), dup_t])), DeriveError::DuplicateTarget);
    let odd = field("a", plain(&["i32"]), vec![junction(vec![("weight", MetaValue::Absent)])]);
    assert_eq!(err(def("E", vec![], vec![odd, src(), tgt()])), DeriveError::UnsupportedFieldOption);
    let valued = field("a", generic(&["SimpleId"], plain(&["N"])), vec![junction(vec![("source", MetaValue::Str("x".into()))])]);
    assert_eq!(err(def("E", vec![], vec![valued, tgt()])), DeriveError::ExpectedComma);
    let legacy = junction(vec![("from", MetaValue::Path(vec!["A".into()]))]);
    assert_eq!(err(def("E", vec![legacy], vec![src(), tgt()])), DeriveError::LegacyEndpoints);
    let other = junction(vec![("name", MetaValue::Str("x".into()))]);
    assert_eq!(err(def("E", vec![other], vec![src(), tgt()])), DeriveError::UnsupportedOption);
    let bare_table = junction(vec![("table", MetaValue::Absent)]);
    assert_eq!(err(def("E", vec![bare_table], vec![src(), tgt()])), DeriveError::ExpectedEquals);
    let path_form = Attribute { path: "junction".into(), form: AttrForm::Path, items: vec![] };
    assert_eq!(err(def("E", vec![path_form], vec![src(), tgt()])), DeriveError::ExpectedArguments);
    let nv_form = Attribute { path: "junction".into(), form: AttrForm::NameValue, items: vec![] };
    assert_eq!(err(def("E", vec![nv_form], vec![src(), tgt()])), DeriveError::ExpectedParentheses);
    assert_eq!(DeriveError::MissingSource.message(), "Missing #[junction(source)] field on Edge struct");
}

#[test]
fn endpoint_types_through_option_and_vec() {
    let opt = generic(&["Option"], generic(&["Link"], plain(&["crate", "Post"])));
    let vec_ty = generic(&["Vec"], generic(&["SimpleId"], plain(&["Tag"])));
    let d = def(
        "Tagged",
        vec![],
        vec![
            field("r#in", opt, vec![junction(vec![("source", MetaValue::Absent)])]),
            field("r#out", vec_ty, vec![junction(vec![("target", MetaValue::Absent)])]),
        ],
    );
    let e = derive_edge(&d).unwrap();
    assert_eq!(last_ident(&e.source_type), "Post");
    assert_eq!(last_ident(&e.target_type), "Tag");
    assert_eq!(e.endpoint_field_names(), ("in", "out"));
    assert_eq!(e.table, "tagged");
    assert_eq!(e.column("r#in").unwrap().column, "in");
}
