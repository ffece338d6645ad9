use junction_rs::expr::{cond, All, ColumnOrder, Expr, ExprKind};
use junction_rs::graph::{start, start_at, Direction, ReturnMode, StepFilter};
use junction_rs::id::SimpleId;
use junction_rs::query::ast::{OrderKey, Param, PredExpr, Query, SelectField, Stmt};
use junction_rs::query::delete::delete;
use junction_rs::query::insert::{insert, insert_into};
use junction_rs::query::select::{select, select_edge, TraversalDir};
use junction_rs::query::update::update;
use junction_rs::schema::{Col, Table};
use junction_rs::traits::{Edge, HasTableName, Insertable, Node};

struct Person;

impl HasTableName for Person {
    fn table_name() -> &'static str {
        "person"
    }
}

impl Node for Person {
    const TABLE: &'static str = "person";
    type Schema = ();
    fn schema() -> Self::Schema {}
}

struct Knows;

impl HasTableName for Knows {
    fn table_name() -> &'static str {
        "knows"
    }
}

impl Edge for Knows {
    const TABLE: &'static str = "knows";
    type Schema = ();
    type From = Person;
    type To = Person;
    const SOURCE_FIELD_NAME: &'static str = "follower";
    const TARGET_FIELD_NAME: &'static str = "followed";
    fn schema() -> Self::Schema {}
}

impl Insertable for Knows {
    fn table_name() -> &'static str {
        "knows"
    }
    fn endpoint_fields() -> Option<(&'static str, &'static str)> {
        Some(("follower", "followed"))
    }
}

fn age() -> Col<Person> {
    Col::new("person", "age")
}

fn name() -> Col<Person> {
    Col::new("person", "name")
}

#[test]
fn bind_replaces_earlier_value_of_a_key() {
    let q = Query::new(Stmt::Delete(junction_rs::query::ast::Delete { table: "t", filter: None }))
        .bind("a".to_string(), serde_json::Value::from(1))
        .bind("b".to_string(), serde_json::Value::from(2))
        .bind("a".to_string(), serde_json::Value::from(3));
    let keys: Vec<&str> = q.binds.iter().map(|(k, _)| k.as_str()).collect();
    assert_eq!(keys, vec!["b", "a"]);
    assert_eq!(q.binds[1].1, serde_json::Value::from(3));
}

#[test]
fn select_query_lowers_filter_and_order() {
    let filter = age().gt(serde_json::Value::from(18)).and(name().like(serde_json::Value::from("A%")));
    let q = select::<Person>(All)
        .from(Table::<Person>::new("person"))
        .where_(filter)
        .order_by(age().desc())
        .limit(10)
        .into_query();
    assert!(q.binds.is_empty());
    match q.stmt {
        Stmt::Select(sel) => {
            assert_eq!(sel.table, "person");
            assert!(matches!(sel.fields[0], SelectField::Star));
            assert_eq!(sel.limit, Some(10));
            assert_eq!(sel.order_by, vec![OrderKey::Desc("age")]);
            match sel.filter {
                Some(PredExpr::And(a, b)) => {
                    assert!(matches!(*a, PredExpr::Binary { col: "age", op: ">", param: Param::Inline(ref v) } if *v == serde_json::Value::from(18)));
                    assert!(matches!(*b, PredExpr::Binary { col: "name", op: "LIKE", .. }));
                }
                other => panic!("unexpected filter {:?}", other),
            }
        }
        other => panic!("unexpected statement {:?}", other),
    }
}

#[test]
fn select_columns_and_traversal() {
    let q = select::<Person>(All)
        .from(Table::<Person>::new("person"))
        .columns(&[name(), age()])
        .traverse_edge("knows", TraversalDir::Out)
        .into_query();
    match q.stmt {
        Stmt::Select(sel) => {
            let cols: Vec<String> = sel.fields.iter().map(|f| format!("{:?}", f)).collect();
            assert_eq!(cols.len(), 2, "{:?}", cols);
            assert!(matches!(sel.fields[0], SelectField::Column("name")));
            assert_eq!(sel.traversal.len(), 1);
            assert_eq!(sel.traversal[0].edge, "knows");
        }
        other => panic!("unexpected statement {:?}", other),
    }
}

#[test]
fn edge_select_binds_endpoint_field_names() {
    let q = select_edge::<Knows>(All).from(Table::<Knows>::new("knows")).into_query();
    assert_eq!(q.binds.len(), 2);
    assert_eq!(q.binds[0].0, "__jxn_edge_src");
    assert_eq!(q.binds[0].1, serde_json::Value::String("follower".into()));
    assert_eq!(q.binds[1].0, "__jxn_edge_tgt");
    assert_eq!(q.binds[1].1, serde_json::Value::String("followed".into()));
}

#[test]
fn insert_into_keeps_endpoint_fields_of_the_type() {
    let b = insert_into(Table::<Person>::new("knows_archive"), vec![Knows]);
    assert_eq!(b.table, "knows_archive");
    assert_eq!(b.endpoint_fields, Some(("follower", "followed")));
    let q = b.query_with(serde_json::Value::Array(vec![]));
    assert_eq!(q.binds.len(), 2);
    assert_eq!(q.binds[0].1, serde_json::Value::String("follower".into()));
    let plain = insert(vec![Knows]);
    assert_eq!(plain.table, "knows");
    assert_eq!(plain.endpoint_fields, b.endpoint_fields);
}

#[test]
fn insert_update_delete_queries() {
    let b = insert(vec![Knows, Knows]);
    let q = b.query_with(serde_json::Value::Array(vec![]));
    assert!(matches!(q.stmt, Stmt::Insert(ref i) if i.table == "knows" && i.endpoint_fields == Some(("follower", "followed"))));
    assert_eq!(q.binds.len(), 2);

    let q = update(Table::<Person>::new("person"))
        .content(serde_json::Value::from(5))
        .where_(age().eq(serde_json::Value::from(1)))
        .into_query();
    assert!(matches!(q.stmt, Stmt::Update(ref u) if u.table == "person" && u.merge.is_some() && u.filter.is_some()));

    let q = delete(Table::<Person>::new("person")).into_query();
    assert!(matches!(q.stmt, Stmt::Delete(ref d) if d.table == "person" && d.filter.is_none()));
}

#[test]
fn expressions_compose() {
    let e = !age().lt(serde_json::Value::from(3));
    assert!(matches!(e.0, ExprKind::Not(_)));
    let e = cond(age().between(serde_json::Value::from(1), serde_json::Value::from(9)));
    assert!(matches!(e.0, ExprKind::And(_, _)));
    let e = Expr::binary(&name(), "=", serde_json::Value::from("x")).or(name().isin(serde_json::Value::Array(vec![serde_json::Value::from("a")])));
    assert!(matches!(e.0, ExprKind::Or(_, _)));
    assert_eq!(name().asc(), ColumnOrder::Asc("person", "name"));
}

#[test]
fn traversal_steps_repeat_alias_and_filters() {
    let p = start::<Person>()
        .forward::<Knows>()
        .repeat(3, 5)
        .alias("friend")
        .filter_node(age().gt(serde_json::Value::from(18)))
        .into_traversal();
    assert_eq!(p.steps.len(), 3);
    assert_eq!(p.steps[2].repeat_extra, Some(2));
    assert_eq!(p.steps[2].node_alias.as_deref(), Some("friend"));
    assert!(matches!(p.steps[2].filters[0], StepFilter::Node(_)));
    assert_eq!(p.steps[0].edge_set.edges[0].direction, Direction::Out);
    assert!(matches!(p.return_mode, ReturnMode::Nodes));

    let back = start::<Person>().backward::<Knows>().into_traversal();
    assert_eq!(back.steps[0].edge_set.edges[0].direction, Direction::In);

    let id = SimpleId::<Person>::from_uuid(1);
    let at = start_at::<Person>(id).into_traversal();
    assert_eq!(at.start.id.as_deref(), Some("person:00000000-0000-0000-0000-000000000001"));
}

#[test]
fn repeat_from_one_keeps_upper_bound() {
    let p = start::<Person>().forward::<Knows>().repeat(1, 3).into_traversal();
    assert_eq!(p.steps.len(), 1);
    assert_eq!(p.steps[0].repeat_extra, Some(2));
    let q = start::<Person>().forward::<Knows>().repeat(2, 2).into_traversal();
    assert_eq!(q.steps.len(), 2);
    assert_eq!(q.steps[1].repeat_extra, None);
    let empty = start::<Person>().repeat(2, 4).into_traversal();
    assert_eq!(empty.steps.len(), 0);
}

struct Likes;

impl HasTableName for Likes {
    fn table_name() -> &'static str {
        "likes"
    }
}

impl Edge for Likes {
    const TABLE: &'static str = "likes";
    type Schema = ();
    type From = Person;
    type To = Person;
    fn schema() -> Self::Schema {}
}

#[test]
fn unions_projections_and_return_modes() {
    let p = start::<Person>().out_union::<(Knows, Likes), Person>().into_traversal();
    let tables: Vec<&str> = p.steps[0].edge_set.edges.iter().map(|e| e.table).collect();
    assert_eq!(tables, vec!["knows", "likes"]);

    let q = start::<Person>().forward::<Knows>().filter_edge(age().gt(serde_json::Value::from(1)));
    let t = q.into_traversal();
    assert!(matches!(t.steps[0].filters[0], StepFilter::Edge(_)));

    let g = start::<Person>().forward::<Knows>().project_fields::<Person>(&["name", "age"]);
    assert!(matches!(g.ast.return_mode, ReturnMode::ProjectFields(ref v) if v == &vec!["name", "age"]));
    let copy = g.as_query_ref();
    assert!(matches!(copy.stmt, Stmt::Graph(ref t) if t.steps.len() == 1));

    let e = start::<Person>().forward::<Knows>().return_edges::<Knows>();
    assert!(matches!(e.ast.return_mode, ReturnMode::Edges));
    let path = start::<Person>().forward::<Knows>().return_path();
    assert!(matches!(path.ast.return_mode, ReturnMode::Path));
    let k = start::<Person>().project::<Person>("name");
    assert!(matches!(k.ast.return_mode, ReturnMode::Project("name")));
    assert!(matches!(start::<Person>().into_query().stmt, Stmt::Graph(_)));
}
