//! What a diff means: applying its forward operations to the current schema gives the
//! target schema, applying its reverse operations to the target gives the current one,
//! and a schema diffed with itself gives no operations.
use vstd::prelude::*;
use crate::keyindex::{last_occ, lemma_last_occ_bounds, sorted_keys};
use crate::schema_ops::{FieldDefView, FieldTypeView, SchemaOpView};
use crate::snapshot::{FieldView, ModelView, SnapshotView};
use crate::diff::{
    Pass, FieldPass, spec_diff, table_run, table_step, field_run, field_step, table_field_ops,
    model_keys, edge_keys, field_keys, model_for, field_for, defs_of,
    spec_map_field_type,
};

verus! {

/// A schema as a diff sees it: each table with the type of each of its fields, and the
/// names of the edges.
pub struct SchemaState {
    pub tables: Map<Seq<char>, Map<Seq<char>, FieldTypeView>>,
    pub edges: Set<Seq<char>>,
}

/// Names of field definitions, in order.
pub open spec fn def_keys(ds: Seq<FieldDefView>) -> Seq<Seq<char>> {
    ds.map_values(|d: FieldDefView| d.name)
}

/// Field name to type, the last definition of a name standing for it.
pub open spec fn field_map(ds: Seq<FieldDefView>) -> Map<Seq<char>, FieldTypeView> {
    Map::new(|n: Seq<char>| def_keys(ds).contains(n), |n: Seq<char>| ds[last_occ(def_keys(ds), n)].ty)
}

/// The schema a snapshot describes.
pub open spec fn state_of(s: SnapshotView) -> SchemaState {
    SchemaState {
        tables: Map::new(
            |k: Seq<char>| model_keys(s.models).contains(k),
            |k: Seq<char>| field_map(defs_of(model_for(s.models, k).fields)),
        ),
        edges: Set::new(|k: Seq<char>| edge_keys(s.edges).contains(k)),
    }
}

/// The schema after one operation. Field operations on a table that does not exist
/// leave the schema unchanged.
pub open spec fn apply_op(s: SchemaState, op: SchemaOpView) -> SchemaState {
    match op {
        SchemaOpView::CreateTable { name, fields } => SchemaState {
            tables: s.tables.insert(name, field_map(fields)),
            edges: s.edges,
        },
        SchemaOpView::DropTable { name } => SchemaState { tables: s.tables.remove(name), edges: s.edges },
        SchemaOpView::AddField { table, field } => if s.tables.contains_key(table) {
            SchemaState {
                tables: s.tables.insert(table, s.tables[table].insert(field.name, field.ty)),
                edges: s.edges,
            }
        } else {
            s
        },
        SchemaOpView::DropField { table, field } => if s.tables.contains_key(table) {
            SchemaState {
                tables: s.tables.insert(table, s.tables[table].remove(field)),
                edges: s.edges,
            }
        } else {
            s
        },
        SchemaOpView::CreateEdge { name, .. } => SchemaState { tables: s.tables, edges: s.edges.insert(name) },
        SchemaOpView::DropEdge { name } => SchemaState { tables: s.tables, edges: s.edges.remove(name) },
    }
}

/// The schema after a sequence of operations, applied in order.
pub open spec fn apply_ops(s: SchemaState, ops: Seq<SchemaOpView>) -> SchemaState
    decreases ops.len(),
{
    if ops.len() == 0 {
        s
    } else {
        apply_op(apply_ops(s, ops.drop_last()), ops.last())
    }
}

proof fn lemma_apply_concat(s: SchemaState, a: Seq<SchemaOpView>, b: Seq<SchemaOpView>)
    ensures
        apply_ops(s, a + b) == apply_ops(apply_ops(s, a), b),
    decreases b.len(),
{
    if b.len() == 0 {
        assert(a + b =~= a);
    } else {
        lemma_apply_concat(s, a, b.drop_last());
        assert((a + b).drop_last() =~= a + b.drop_last());
        assert((a + b).last() == b.last());
    }
}

proof fn lemma_apply_one(s: SchemaState, op: SchemaOpView)
    ensures
        apply_ops(s, seq![op]) == apply_op(s, op),
{
    assert(seq![op].drop_last() =~= Seq::<SchemaOpView>::empty());
    assert(apply_ops(s, Seq::<SchemaOpView>::empty()) == s);
    assert(seq![op].last() == op);
}

proof fn lemma_apply_two(s: SchemaState, a: SchemaOpView, b: SchemaOpView)
    ensures
        apply_ops(s, seq![a, b]) == apply_op(apply_op(s, a), b),
{
    assert(seq![a, b].drop_last() =~= seq![a]);
    lemma_apply_one(s, a);
}

proof fn lemma_field_for_name(fs: Seq<FieldView>, n: Seq<char>)
    requires
        field_keys(fs).contains(n),
    ensures
        field_for(fs, n).name == n,
        0 <= last_occ(field_keys(fs), n) < fs.len(),
{
    lemma_last_occ_bounds(field_keys(fs), n);
}

/// The type a model gives a field name, as a schema operation states it.
pub open spec fn type_in(m: ModelView, n: Seq<char>) -> FieldTypeView {
    spec_map_field_type(field_for(m.fields, n).ty)
}

proof fn lemma_field_map_of_model(m: ModelView)
    ensures
        field_map(defs_of(m.fields)) == Map::new(
            |n: Seq<char>| field_keys(m.fields).contains(n),
            |n: Seq<char>| type_in(m, n),
        ),
{
    assert(def_keys(defs_of(m.fields)) =~= field_keys(m.fields));
    let a = field_map(defs_of(m.fields));
    let b = Map::new(|n: Seq<char>| field_keys(m.fields).contains(n), |n: Seq<char>| type_in(m, n));
    assert forall|n: Seq<char>| a.contains_key(n) implies a[n] == b[n] by {
        lemma_last_occ_bounds(field_keys(m.fields), n);
    }
    assert(a =~= b);
}

// ---------------------------------------------------------------------------
// Field passes
// ---------------------------------------------------------------------------

/// The field map of table `t` after a field pass over `keys`, forward.
pub open spec fn field_pass_fwd(pass: FieldPass, cm: ModelView, tm: ModelView, m: Map<Seq<char>, FieldTypeView>, keys: Seq<Seq<char>>) -> Map<
    Seq<char>,
    FieldTypeView,
> {
    let in_cur = |n: Seq<char>| field_keys(cm.fields).contains(n);
    let in_tgt = |n: Seq<char>| field_keys(tm.fields).contains(n);
    match pass {
        FieldPass::NewFields => Map::new(
            |n: Seq<char>| m.contains_key(n) || (keys.contains(n) && !in_cur(n)),
            |n: Seq<char>| if keys.contains(n) && !in_cur(n) { type_in(tm, n) } else { m[n] },
        ),
        FieldPass::GoneFields => Map::new(
            |n: Seq<char>| m.contains_key(n) && !(keys.contains(n) && !in_tgt(n)),
            |n: Seq<char>| m[n],
        ),
        FieldPass::ChangedFields => Map::new(
            |n: Seq<char>| m.contains_key(n) || (keys.contains(n) && in_cur(n) && type_in(tm, n) != type_in(cm, n)),
            |n: Seq<char>| if keys.contains(n) && in_cur(n) && type_in(tm, n) != type_in(cm, n) {
                type_in(tm, n)
            } else {
                m[n]
            },
        ),
    }
}

/// The field map of table `t` after a field pass over `keys`, reverse.
pub open spec fn field_pass_rev(pass: FieldPass, cm: ModelView, tm: ModelView, m: Map<Seq<char>, FieldTypeView>, keys: Seq<Seq<char>>) -> Map<
    Seq<char>,
    FieldTypeView,
> {
    let in_cur = |n: Seq<char>| field_keys(cm.fields).contains(n);
    let in_tgt = |n: Seq<char>| field_keys(tm.fields).contains(n);
    match pass {
        FieldPass::NewFields => Map::new(
            |n: Seq<char>| m.contains_key(n) && !(keys.contains(n) && !in_cur(n)),
            |n: Seq<char>| m[n],
        ),
        FieldPass::GoneFields => Map::new(
            |n: Seq<char>| m.contains_key(n) || (keys.contains(n) && !in_tgt(n)),
            |n: Seq<char>| if keys.contains(n) && !in_tgt(n) { type_in(cm, n) } else { m[n] },
        ),
        FieldPass::ChangedFields => Map::new(
            |n: Seq<char>| m.contains_key(n) || (keys.contains(n) && in_cur(n) && type_in(tm, n) != type_in(cm, n)),
            |n: Seq<char>| if keys.contains(n) && in_cur(n) && type_in(tm, n) != type_in(cm, n) {
                type_in(cm, n)
            } else {
                m[n]
            },
        ),
    }
}

/// The names a field pass walks lie in the model it reads them from.
pub open spec fn field_keys_ok(pass: FieldPass, cm: ModelView, tm: ModelView, keys: Seq<Seq<char>>) -> bool {
    forall|n: Seq<char>| #[trigger] keys.contains(n) ==> match pass {
        FieldPass::GoneFields => field_keys(cm.fields).contains(n),
        _ => field_keys(tm.fields).contains(n),
    }
}

proof fn lemma_field_run(pass: FieldPass, t: Seq<char>, cm: ModelView, tm: ModelView, s: SchemaState, keys: Seq<Seq<char>>)
    requires
        s.tables.contains_key(t),
        field_keys_ok(pass, cm, tm, keys),
    ensures
        apply_ops(s, field_run(pass, t, cm, tm, keys).0) == (SchemaState {
            tables: s.tables.insert(t, field_pass_fwd(pass, cm, tm, s.tables[t], keys)),
            edges: s.edges,
        }),
        apply_ops(s, field_run(pass, t, cm, tm, keys).1) == (SchemaState {
            tables: s.tables.insert(t, field_pass_rev(pass, cm, tm, s.tables[t], keys)),
            edges: s.edges,
        }),
    decreases keys.len(),
{
    if keys.len() == 0 {
        assert(field_pass_fwd(pass, cm, tm, s.tables[t], keys) =~= s.tables[t]);
        assert(field_pass_rev(pass, cm, tm, s.tables[t], keys) =~= s.tables[t]);
        assert(s.tables.insert(t, s.tables[t]) =~= s.tables);
    } else {
        let prev = keys.drop_last();
        let n = keys.last();
        assert(keys.contains(n)) by {
            assert(keys[keys.len() - 1] == n);
        }
        assert forall|x: Seq<char>| prev.contains(x) implies keys.contains(x) by {
            let i = choose|i: int| 0 <= i < prev.len() && prev[i] == x;
            assert(keys[i] == x);
        }
        assert forall|x: Seq<char>| #[trigger] keys.contains(x) implies prev.contains(x) || x == n by {
            let i = choose|i: int| 0 <= i < keys.len() && keys[i] == x;
            if i < keys.len() - 1 {
                assert(prev[i] == x);
            }
        }
        lemma_field_run(pass, t, cm, tm, s, prev);
        let r = field_run(pass, t, cm, tm, prev);
        let st = field_step(pass, t, cm, tm, n);
        lemma_apply_concat(s, r.0, st.0);
        lemma_apply_concat(s, r.1, st.1);
        let sf = apply_ops(s, r.0);
        let sb = apply_ops(s, r.1);
        let mf = field_pass_fwd(pass, cm, tm, s.tables[t], prev);
        let mb = field_pass_rev(pass, cm, tm, s.tables[t], prev);
        let mf2 = field_pass_fwd(pass, cm, tm, s.tables[t], keys);
        let mb2 = field_pass_rev(pass, cm, tm, s.tables[t], keys);
        match pass {
            FieldPass::GoneFields => {
                lemma_field_for_name(cm.fields, n);
            },
            _ => {
                lemma_field_for_name(tm.fields, n);
            },
        }
        if field_keys(cm.fields).contains(n) {
            lemma_field_for_name(cm.fields, n);
        }
        let in_cur = field_keys(cm.fields).contains(n);
        let in_tgt = field_keys(tm.fields).contains(n);
        match pass {
            FieldPass::NewFields => {
                if in_cur {
                    assert(mf2 =~= mf);
                    assert(mb2 =~= mb);
                } else {
                    lemma_apply_one(sf, st.0[0]);
                    lemma_apply_one(sb, st.1[0]);
                    assert(st.0 =~= seq![st.0[0]]);
                    assert(st.1 =~= seq![st.1[0]]);
                    assert(mf2 =~= mf.insert(n, type_in(tm, n)));
                    assert(mb2 =~= mb.remove(n));
                }
            },
            FieldPass::GoneFields => {
                if in_tgt {
                    assert(mf2 =~= mf);
                    assert(mb2 =~= mb);
                } else {
                    lemma_apply_one(sf, st.0[0]);
                    lemma_apply_one(sb, st.1[0]);
                    assert(st.0 =~= seq![st.0[0]]);
                    assert(st.1 =~= seq![st.1[0]]);
                    assert(mf2 =~= mf.remove(n));
                    assert(mb2 =~= mb.insert(n, type_in(cm, n)));
                }
            },
            FieldPass::ChangedFields => {
                if in_cur && type_in(tm, n) != type_in(cm, n) {
                    lemma_apply_two(sf, st.0[0], st.0[1]);
                    lemma_apply_two(sb, st.1[0], st.1[1]);
                    assert(st.0 =~= seq![st.0[0], st.0[1]]);
                    assert(st.1 =~= seq![st.1[0], st.1[1]]);
                    assert(mf2 =~= mf.remove(n).insert(n, type_in(tm, n)));
                    assert(mb2 =~= mb.remove(n).insert(n, type_in(cm, n)));
                } else {
                    assert(mf2 =~= mf);
                    assert(mb2 =~= mb);
                }
            },
        }
        assert(s.tables.insert(t, mf).insert(t, mf2) =~= s.tables.insert(t, mf2));
        assert(s.tables.insert(t, mb).insert(t, mb2) =~= s.tables.insert(t, mb2));
        assert(s.tables.insert(t, mf).insert(t, mf.remove(n)) =~= s.tables.insert(t, mf.remove(n)));
        assert(s.tables.insert(t, mb).insert(t, mb.remove(n)) =~= s.tables.insert(t, mb.remove(n)));
        assert(s.tables.insert(t, mf).insert(t, mf.remove(n)).insert(t, mf.remove(n).insert(n, type_in(tm, n))) =~= s.tables.insert(t, mf.remove(n).insert(n, type_in(tm, n))));
        assert(s.tables.insert(t, mb).insert(t, mb.remove(n)).insert(t, mb.remove(n).insert(n, type_in(cm, n))) =~= s.tables.insert(t, mb.remove(n).insert(n, type_in(cm, n))));
    }
}


// ---------------------------------------------------------------------------
// Table and edge passes
// ---------------------------------------------------------------------------

/// The field map a model gives its table.
pub open spec fn fm(m: ModelView) -> Map<Seq<char>, FieldTypeView> {
    field_map(defs_of(m.fields))
}

/// The field map of a shared table after its forward field operations.
pub open spec fn shared_fwd(cur: SnapshotView, tgt: SnapshotView, k: Seq<char>, m: Map<Seq<char>, FieldTypeView>) -> Map<
    Seq<char>,
    FieldTypeView,
> {
    let cm = model_for(cur.models, k);
    let tm = model_for(tgt.models, k);
    let tf = sorted_keys(field_keys(tm.fields));
    let cf = sorted_keys(field_keys(cm.fields));
    field_pass_fwd(
        FieldPass::ChangedFields,
        cm,
        tm,
        field_pass_fwd(FieldPass::GoneFields, cm, tm, field_pass_fwd(FieldPass::NewFields, cm, tm, m, tf), cf),
        tf,
    )
}

/// The field map of a shared table after its reverse field operations.
pub open spec fn shared_rev(cur: SnapshotView, tgt: SnapshotView, k: Seq<char>, m: Map<Seq<char>, FieldTypeView>) -> Map<
    Seq<char>,
    FieldTypeView,
> {
    let cm = model_for(cur.models, k);
    let tm = model_for(tgt.models, k);
    let tf = sorted_keys(field_keys(tm.fields));
    let cf = sorted_keys(field_keys(cm.fields));
    field_pass_rev(
        FieldPass::ChangedFields,
        cm,
        tm,
        field_pass_rev(FieldPass::GoneFields, cm, tm, field_pass_rev(FieldPass::NewFields, cm, tm, m, tf), cf),
        tf,
    )
}

/// The schema after the forward operations of a pass over `keys`.
pub open spec fn table_pass_fwd(pass: Pass, cur: SnapshotView, tgt: SnapshotView, s: SchemaState, keys: Seq<Seq<char>>) -> SchemaState {
    let in_cur = |k: Seq<char>| model_keys(cur.models).contains(k);
    let in_tgt = |k: Seq<char>| model_keys(tgt.models).contains(k);
    let e_in_cur = |k: Seq<char>| edge_keys(cur.edges).contains(k);
    let e_in_tgt = |k: Seq<char>| edge_keys(tgt.edges).contains(k);
    match pass {
        Pass::NewTables => SchemaState {
            tables: Map::new(
                |k: Seq<char>| s.tables.contains_key(k) || (keys.contains(k) && !in_cur(k)),
                |k: Seq<char>| if keys.contains(k) && !in_cur(k) { fm(model_for(tgt.models, k)) } else { s.tables[k] },
            ),
            edges: s.edges,
        },
        Pass::GoneTables => SchemaState {
            tables: Map::new(
                |k: Seq<char>| s.tables.contains_key(k) && !(keys.contains(k) && !in_tgt(k)),
                |k: Seq<char>| s.tables[k],
            ),
            edges: s.edges,
        },
        Pass::SharedTables => SchemaState {
            tables: Map::new(
                |k: Seq<char>| s.tables.contains_key(k),
                |k: Seq<char>| if keys.contains(k) && in_cur(k) { shared_fwd(cur, tgt, k, s.tables[k]) } else { s.tables[k] },
            ),
            edges: s.edges,
        },
        Pass::NewEdges => SchemaState {
            tables: s.tables,
            edges: Set::new(|k: Seq<char>| s.edges.contains(k) || (keys.contains(k) && !e_in_cur(k))),
        },
        Pass::GoneEdges => SchemaState {
            tables: s.tables,
            edges: Set::new(|k: Seq<char>| s.edges.contains(k) && !(keys.contains(k) && !e_in_tgt(k))),
        },
    }
}

/// The schema after the reverse operations of a pass over `keys`.
pub open spec fn table_pass_rev(pass: Pass, cur: SnapshotView, tgt: SnapshotView, s: SchemaState, keys: Seq<Seq<char>>) -> SchemaState {
    let in_cur = |k: Seq<char>| model_keys(cur.models).contains(k);
    let in_tgt = |k: Seq<char>| model_keys(tgt.models).contains(k);
    let e_in_cur = |k: Seq<char>| edge_keys(cur.edges).contains(k);
    let e_in_tgt = |k: Seq<char>| edge_keys(tgt.edges).contains(k);
    match pass {
        Pass::NewTables => SchemaState {
            tables: Map::new(
                |k: Seq<char>| s.tables.contains_key(k) && !(keys.contains(k) && !in_cur(k)),
                |k: Seq<char>| s.tables[k],
            ),
            edges: s.edges,
        },
        Pass::GoneTables => SchemaState {
            tables: Map::new(
                |k: Seq<char>| s.tables.contains_key(k) || (keys.contains(k) && !in_tgt(k)),
                |k: Seq<char>| if keys.contains(k) && !in_tgt(k) { fm(model_for(cur.models, k)) } else { s.tables[k] },
            ),
            edges: s.edges,
        },
        Pass::SharedTables => SchemaState {
            tables: Map::new(
                |k: Seq<char>| s.tables.contains_key(k),
                |k: Seq<char>| if keys.contains(k) && in_cur(k) { shared_rev(cur, tgt, k, s.tables[k]) } else { s.tables[k] },
            ),
            edges: s.edges,
        },
        Pass::NewEdges => SchemaState {
            tables: s.tables,
            edges: Set::new(|k: Seq<char>| s.edges.contains(k) && !(keys.contains(k) && !e_in_cur(k))),
        },
        Pass::GoneEdges => SchemaState {
            tables: s.tables,
            edges: Set::new(|k: Seq<char>| s.edges.contains(k) || (keys.contains(k) && !e_in_tgt(k))),
        },
    }
}

proof fn lemma_field_keys_ok(cm: ModelView, tm: ModelView)
    ensures
        field_keys_ok(FieldPass::NewFields, cm, tm, sorted_keys(field_keys(tm.fields))),
        field_keys_ok(FieldPass::ChangedFields, cm, tm, sorted_keys(field_keys(tm.fields))),
        field_keys_ok(FieldPass::GoneFields, cm, tm, sorted_keys(field_keys(cm.fields))),
{
    crate::keyindex::lemma_sorted_keys_exist(field_keys(tm.fields));
    crate::keyindex::lemma_sorted_keys_exist(field_keys(cm.fields));
}

proof fn lemma_shared_step(cur: SnapshotView, tgt: SnapshotView, s: SchemaState, k: Seq<char>)
    requires
        s.tables.contains_key(k),
    ensures
        apply_ops(s, table_field_ops(k, model_for(cur.models, k), model_for(tgt.models, k)).0) == (SchemaState {
            tables: s.tables.insert(k, shared_fwd(cur, tgt, k, s.tables[k])),
            edges: s.edges,
        }),
        apply_ops(s, table_field_ops(k, model_for(cur.models, k), model_for(tgt.models, k)).1) == (SchemaState {
            tables: s.tables.insert(k, shared_rev(cur, tgt, k, s.tables[k])),
            edges: s.edges,
        }),
{
    let cm = model_for(cur.models, k);
    let tm = model_for(tgt.models, k);
    let tf = sorted_keys(field_keys(tm.fields));
    let cf = sorted_keys(field_keys(cm.fields));
    lemma_field_keys_ok(cm, tm);
    let a = field_run(FieldPass::NewFields, k, cm, tm, tf);
    let b = field_run(FieldPass::GoneFields, k, cm, tm, cf);
    let c = field_run(FieldPass::ChangedFields, k, cm, tm, tf);
    // forward
    lemma_apply_concat(s, a.0 + b.0, c.0);
    lemma_apply_concat(s, a.0, b.0);
    lemma_field_run(FieldPass::NewFields, k, cm, tm, s, tf);
    let s1 = apply_ops(s, a.0);
    lemma_field_run(FieldPass::GoneFields, k, cm, tm, s1, cf);
    let s2 = apply_ops(s1, b.0);
    lemma_field_run(FieldPass::ChangedFields, k, cm, tm, s2, tf);
    assert(s.tables.insert(k, s1.tables[k]).insert(k, s2.tables[k]) =~= s.tables.insert(k, s2.tables[k]));
    assert(s.tables.insert(k, s2.tables[k]).insert(k, shared_fwd(cur, tgt, k, s.tables[k])) =~= s.tables.insert(
        k,
        shared_fwd(cur, tgt, k, s.tables[k]),
    ));
    // reverse
    lemma_apply_concat(s, a.1 + b.1, c.1);
    lemma_apply_concat(s, a.1, b.1);
    let r1 = apply_ops(s, a.1);
    lemma_field_run(FieldPass::GoneFields, k, cm, tm, r1, cf);
    let r2 = apply_ops(r1, b.1);
    lemma_field_run(FieldPass::ChangedFields, k, cm, tm, r2, tf);
    assert(s.tables.insert(k, r1.tables[k]).insert(k, r2.tables[k]) =~= s.tables.insert(k, r2.tables[k]));
    assert(s.tables.insert(k, r2.tables[k]).insert(k, shared_rev(cur, tgt, k, s.tables[k])) =~= s.tables.insert(
        k,
        shared_rev(cur, tgt, k, s.tables[k]),
    ));
}

proof fn lemma_table_run(pass: Pass, cur: SnapshotView, tgt: SnapshotView, s: SchemaState, keys: Seq<Seq<char>>)
    requires
        keys.no_duplicates(),
        pass == Pass::SharedTables ==> forall|k: Seq<char>|
            keys.contains(k) && model_keys(cur.models).contains(k) ==> #[trigger] s.tables.contains_key(k),
    ensures
        apply_ops(s, table_run(pass, cur, tgt, keys).0) == table_pass_fwd(pass, cur, tgt, s, keys),
        apply_ops(s, table_run(pass, cur, tgt, keys).1) == table_pass_rev(pass, cur, tgt, s, keys),
    decreases keys.len(),
{
    let in_cur = |k: Seq<char>| model_keys(cur.models).contains(k);
    if keys.len() == 0 {
        assert(table_pass_fwd(pass, cur, tgt, s, keys).tables =~= s.tables);
        assert(table_pass_rev(pass, cur, tgt, s, keys).tables =~= s.tables);
        assert(table_pass_fwd(pass, cur, tgt, s, keys).edges =~= s.edges);
        assert(table_pass_rev(pass, cur, tgt, s, keys).edges =~= s.edges);
    } else {
        let prev = keys.drop_last();
        let n = keys.last();
        assert(keys.contains(n)) by {
            assert(keys[keys.len() - 1] == n);
        }
        assert(!prev.contains(n)) by {
            if prev.contains(n) {
                let i = choose|i: int| 0 <= i < prev.len() && prev[i] == n;
                assert(keys[i] == keys[keys.len() - 1]);
            }
        }
        assert forall|x: Seq<char>| prev.contains(x) implies keys.contains(x) by {
            let i = choose|i: int| 0 <= i < prev.len() && prev[i] == x;
            assert(keys[i] == x);
        }
        assert forall|x: Seq<char>| #[trigger] keys.contains(x) implies prev.contains(x) || x == n by {
            let i = choose|i: int| 0 <= i < keys.len() && keys[i] == x;
            if i < keys.len() - 1 {
                assert(prev[i] == x);
            }
        }
        assert(prev.no_duplicates()) by {
            assert forall|i: int, j: int| 0 <= i < prev.len() && 0 <= j < prev.len() && i != j implies prev[i] != prev[j] by {
                assert(keys[i] == prev[i]);
                assert(keys[j] == prev[j]);
            }
        }
        lemma_table_run(pass, cur, tgt, s, prev);
        let r = table_run(pass, cur, tgt, prev);
        let st = table_step(pass, cur, tgt, n);
        lemma_apply_concat(s, r.0, st.0);
        lemma_apply_concat(s, r.1, st.1);
        let sf = apply_ops(s, r.0);
        let sb = apply_ops(s, r.1);
        let f2 = table_pass_fwd(pass, cur, tgt, s, keys);
        let b2 = table_pass_rev(pass, cur, tgt, s, keys);
        match pass {
            Pass::SharedTables => {
                if in_cur(n) {
                    assert(s.tables.contains_key(n));
                    assert(sf.tables[n] == s.tables[n]);
                    assert(sb.tables[n] == s.tables[n]);
                    lemma_shared_step(cur, tgt, sf, n);
                    lemma_shared_step(cur, tgt, sb, n);
                    assert(f2.tables =~= sf.tables.insert(n, shared_fwd(cur, tgt, n, sf.tables[n])));
                    assert(b2.tables =~= sb.tables.insert(n, shared_rev(cur, tgt, n, sb.tables[n])));
                } else {
                    assert(f2.tables =~= sf.tables);
                    assert(b2.tables =~= sb.tables);
                }
            },
            _ => {
                if st.0.len() == 0 {
                    assert(f2.tables =~= sf.tables);
                    assert(b2.tables =~= sb.tables);
                    assert(f2.edges =~= sf.edges);
                    assert(b2.edges =~= sb.edges);
                } else {
                    lemma_apply_one(sf, st.0[0]);
                    lemma_apply_one(sb, st.1[0]);
                    assert(st.0 =~= seq![st.0[0]]);
                    assert(st.1 =~= seq![st.1[0]]);
                    assert(f2.tables =~= apply_op(sf, st.0[0]).tables);
                    assert(b2.tables =~= apply_op(sb, st.1[0]).tables);
                    assert(f2.edges =~= apply_op(sf, st.0[0]).edges);
                    assert(b2.edges =~= apply_op(sb, st.1[0]).edges);
                }
            },
        }
    }
}


// ---------------------------------------------------------------------------
// The laws
// ---------------------------------------------------------------------------

proof fn lemma_sorted_no_dups(keys: Seq<Seq<char>>)
    ensures
        sorted_keys(keys).no_duplicates(),
        forall|k: Seq<char>| sorted_keys(keys).contains(k) <==> keys.contains(k),
{
    crate::keyindex::lemma_sorted_keys_exist(keys);
    let s = sorted_keys(keys);
    assert forall|i: int, j: int| 0 <= i < s.len() && 0 <= j < s.len() && i != j implies s[i] != s[j] by {
        if i < j {
            assert(crate::text::seq_lt(s[i], s[j]));
            if s[i] == s[j] {
                crate::text::lemma_lt_irreflexive(s[i]);
            }
        } else {
            assert(crate::text::seq_lt(s[j], s[i]));
            if s[i] == s[j] {
                crate::text::lemma_lt_irreflexive(s[i]);
            }
        }
    }
}

proof fn lemma_shared_maps(cur: SnapshotView, tgt: SnapshotView, k: Seq<char>)
    ensures
        shared_fwd(cur, tgt, k, fm(model_for(cur.models, k))) == fm(model_for(tgt.models, k)),
        shared_rev(cur, tgt, k, fm(model_for(tgt.models, k))) == fm(model_for(cur.models, k)),
{
    let cm = model_for(cur.models, k);
    let tm = model_for(tgt.models, k);
    let tf = sorted_keys(field_keys(tm.fields));
    let cf = sorted_keys(field_keys(cm.fields));
    lemma_sorted_no_dups(field_keys(tm.fields));
    lemma_sorted_no_dups(field_keys(cm.fields));
    lemma_field_map_of_model(cm);
    lemma_field_map_of_model(tm);
    let f1 = field_pass_fwd(FieldPass::NewFields, cm, tm, fm(cm), tf);
    let f2 = field_pass_fwd(FieldPass::GoneFields, cm, tm, f1, cf);
    let f3 = field_pass_fwd(FieldPass::ChangedFields, cm, tm, f2, tf);
    assert(f3 =~= fm(tm));
    let b1 = field_pass_rev(FieldPass::NewFields, cm, tm, fm(tm), tf);
    let b2 = field_pass_rev(FieldPass::GoneFields, cm, tm, b1, cf);
    let b3 = field_pass_rev(FieldPass::ChangedFields, cm, tm, b2, tf);
    assert(b3 =~= fm(cm));
}

/// Applying the forward operations of `diff_schemas(current, target)` to the schema of
/// `current` gives the schema of `target`.
pub proof fn lemma_diff_forward_reaches_target(cur: SnapshotView, tgt: SnapshotView)
    ensures
        apply_ops(state_of(cur), spec_diff(cur, tgt).0) == state_of(tgt),
{
    let tk = sorted_keys(model_keys(tgt.models));
    let ck = sorted_keys(model_keys(cur.models));
    let tek = sorted_keys(edge_keys(tgt.edges));
    let cek = sorted_keys(edge_keys(cur.edges));
    lemma_sorted_no_dups(model_keys(tgt.models));
    lemma_sorted_no_dups(model_keys(cur.models));
    lemma_sorted_no_dups(edge_keys(tgt.edges));
    lemma_sorted_no_dups(edge_keys(cur.edges));
    let a = table_run(Pass::NewTables, cur, tgt, tk);
    let b = table_run(Pass::GoneTables, cur, tgt, ck);
    let c = table_run(Pass::SharedTables, cur, tgt, tk);
    let d = table_run(Pass::NewEdges, cur, tgt, tek);
    let e = table_run(Pass::GoneEdges, cur, tgt, cek);
    let s0 = state_of(cur);
    lemma_apply_concat(s0, a.0 + b.0 + c.0 + d.0, e.0);
    lemma_apply_concat(s0, a.0 + b.0 + c.0, d.0);
    lemma_apply_concat(s0, a.0 + b.0, c.0);
    lemma_apply_concat(s0, a.0, b.0);
    lemma_table_run(Pass::NewTables, cur, tgt, s0, tk);
    let s1 = apply_ops(s0, a.0);
    lemma_table_run(Pass::GoneTables, cur, tgt, s1, ck);
    let s2 = apply_ops(s1, b.0);
    lemma_table_run(Pass::SharedTables, cur, tgt, s2, tk);
    let s3 = apply_ops(s2, c.0);
    lemma_table_run(Pass::NewEdges, cur, tgt, s3, tek);
    let s4 = apply_ops(s3, d.0);
    lemma_table_run(Pass::GoneEdges, cur, tgt, s4, cek);
    let s5 = apply_ops(s4, e.0);
    let goal = state_of(tgt);
    assert forall|k: Seq<char>| s5.tables.contains_key(k) implies s5.tables[k] == goal.tables[k] by {
        if model_keys(cur.models).contains(k) {
            lemma_shared_maps(cur, tgt, k);
        }
    }
    assert(s5.tables =~= goal.tables);
    assert(s5.edges =~= goal.edges);
}

/// Applying the reverse operations of `diff_schemas(current, target)` to the schema of
/// `target` gives back the schema of `current`.
pub proof fn lemma_diff_reverse_restores_current(cur: SnapshotView, tgt: SnapshotView)
    ensures
        apply_ops(state_of(tgt), spec_diff(cur, tgt).1) == state_of(cur),
{
    let tk = sorted_keys(model_keys(tgt.models));
    let ck = sorted_keys(model_keys(cur.models));
    let tek = sorted_keys(edge_keys(tgt.edges));
    let cek = sorted_keys(edge_keys(cur.edges));
    lemma_sorted_no_dups(model_keys(tgt.models));
    lemma_sorted_no_dups(model_keys(cur.models));
    lemma_sorted_no_dups(edge_keys(tgt.edges));
    lemma_sorted_no_dups(edge_keys(cur.edges));
    let a = table_run(Pass::NewTables, cur, tgt, tk);
    let b = table_run(Pass::GoneTables, cur, tgt, ck);
    let c = table_run(Pass::SharedTables, cur, tgt, tk);
    let d = table_run(Pass::NewEdges, cur, tgt, tek);
    let e = table_run(Pass::GoneEdges, cur, tgt, cek);
    let s0 = state_of(tgt);
    lemma_apply_concat(s0, a.1 + b.1 + c.1 + d.1, e.1);
    lemma_apply_concat(s0, a.1 + b.1 + c.1, d.1);
    lemma_apply_concat(s0, a.1 + b.1, c.1);
    lemma_apply_concat(s0, a.1, b.1);
    lemma_table_run(Pass::NewTables, cur, tgt, s0, tk);
    let s1 = apply_ops(s0, a.1);
    lemma_table_run(Pass::GoneTables, cur, tgt, s1, ck);
    let s2 = apply_ops(s1, b.1);
    lemma_table_run(Pass::SharedTables, cur, tgt, s2, tk);
    let s3 = apply_ops(s2, c.1);
    lemma_table_run(Pass::NewEdges, cur, tgt, s3, tek);
    let s4 = apply_ops(s3, d.1);
    lemma_table_run(Pass::GoneEdges, cur, tgt, s4, cek);
    let s5 = apply_ops(s4, e.1);
    let goal = state_of(cur);
    assert forall|k: Seq<char>| s5.tables.contains_key(k) implies s5.tables[k] == goal.tables[k] by {
        if model_keys(tgt.models).contains(k) {
            lemma_shared_maps(cur, tgt, k);
        }
    }
    assert(s5.tables =~= goal.tables);
    assert(s5.edges =~= goal.edges);
}


proof fn lemma_field_run_empty(pass: FieldPass, t: Seq<char>, m: ModelView, keys: Seq<Seq<char>>)
    requires
        forall|n: Seq<char>| #[trigger] keys.contains(n) ==> field_keys(m.fields).contains(n),
    ensures
        field_run(pass, t, m, m, keys).0.len() == 0,
        field_run(pass, t, m, m, keys).1.len() == 0,
    decreases keys.len(),
{
    if keys.len() > 0 {
        let prev = keys.drop_last();
        assert forall|n: Seq<char>| #[trigger] prev.contains(n) implies field_keys(m.fields).contains(n) by {
            let i = choose|i: int| 0 <= i < prev.len() && prev[i] == n;
            assert(keys[i] == n);
            assert(keys.contains(n));
        }
        assert(keys.contains(keys.last())) by {
            assert(keys[keys.len() - 1] == keys.last());
        }
        lemma_field_run_empty(pass, t, m, prev);
    }
}

proof fn lemma_table_run_empty(pass: Pass, s: SnapshotView, keys: Seq<Seq<char>>)
    requires
        forall|k: Seq<char>| #[trigger] keys.contains(k) ==> match pass {
            Pass::NewEdges => edge_keys(s.edges).contains(k),
            Pass::GoneEdges => edge_keys(s.edges).contains(k),
            _ => model_keys(s.models).contains(k),
        },
    ensures
        table_run(pass, s, s, keys).0.len() == 0,
        table_run(pass, s, s, keys).1.len() == 0,
    decreases keys.len(),
{
    if keys.len() > 0 {
        let prev = keys.drop_last();
        let k = keys.last();
        assert forall|x: Seq<char>| #[trigger] prev.contains(x) implies match pass {
            Pass::NewEdges => edge_keys(s.edges).contains(x),
            Pass::GoneEdges => edge_keys(s.edges).contains(x),
            _ => model_keys(s.models).contains(x),
        } by {
            let i = choose|i: int| 0 <= i < prev.len() && prev[i] == x;
            assert(keys[i] == x);
            assert(keys.contains(x));
        }
        assert(keys.contains(k)) by {
            assert(keys[keys.len() - 1] == k);
        }
        lemma_table_run_empty(pass, s, prev);
        if pass == Pass::SharedTables {
            let m = model_for(s.models, k);
            lemma_sorted_no_dups(field_keys(m.fields));
            lemma_field_run_empty(FieldPass::NewFields, k, m, sorted_keys(field_keys(m.fields)));
            lemma_field_run_empty(FieldPass::GoneFields, k, m, sorted_keys(field_keys(m.fields)));
            lemma_field_run_empty(FieldPass::ChangedFields, k, m, sorted_keys(field_keys(m.fields)));
        }
    }
}

/// A snapshot diffed with itself gives no operations.
pub proof fn lemma_diff_of_same_is_empty(s: SnapshotView)
    ensures
        spec_diff(s, s).0.len() == 0,
        spec_diff(s, s).1.len() == 0,
{
    lemma_sorted_no_dups(model_keys(s.models));
    lemma_sorted_no_dups(edge_keys(s.edges));
    let tk = sorted_keys(model_keys(s.models));
    let ek = sorted_keys(edge_keys(s.edges));
    lemma_table_run_empty(Pass::NewTables, s, tk);
    lemma_table_run_empty(Pass::GoneTables, s, tk);
    lemma_table_run_empty(Pass::SharedTables, s, tk);
    lemma_table_run_empty(Pass::NewEdges, s, ek);
    lemma_table_run_empty(Pass::GoneEdges, s, ek);
}

} // verus!
