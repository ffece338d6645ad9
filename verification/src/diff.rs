//! Schema diff: the operations that take one snapshot to another, and back.
use vstd::prelude::*;
use crate::keyindex::{sorted_index, sorted_keys, last_occ, keys_at, str_views};
use crate::schema_ops::{
    FieldDef, FieldDefView, FieldType as OpType, FieldTypeView, SchemaOp, SchemaOpView,
    field_defs_view, ops_view, drop_table_op, drop_edge_op, drop_field_op,
};
use crate::snapshot::{
    Edge, EdgeView, Field, FieldKind, FieldType, FieldView, Model, ModelView, SchemaSnapshot,
    SnapshotView, fields_view,
};

verus! {

/// The operations of a diff: `ops_forward` takes the current schema to the target,
/// `ops_reverse` takes the target back to the current schema.
pub struct DiffResult {
    pub ops_forward: Vec<SchemaOp>,
    pub ops_reverse: Vec<SchemaOp>,
}

// ---------------------------------------------------------------------------
// Specification
// ---------------------------------------------------------------------------

/// Scanned field type to schema-operation field type.
pub open spec fn spec_map_field_type(t: FieldKind) -> FieldTypeView {
    match t {
        FieldKind::String => FieldTypeView::String,
        FieldKind::Int64 => FieldTypeView::Int64,
        FieldKind::Float64 => FieldTypeView::Float64,
        FieldKind::Bool => FieldTypeView::Bool,
        FieldKind::DateTime => FieldTypeView::DateTime,
        FieldKind::Uuid => FieldTypeView::Uuid,
        FieldKind::Json => FieldTypeView::Json,
        FieldKind::Other(s) => FieldTypeView::Other(s),
    }
}

/// The field definition of a scanned field.
pub open spec fn def_of(f: FieldView) -> FieldDefView {
    FieldDefView { name: f.name, ty: spec_map_field_type(f.ty), primary: f.primary }
}

/// The field definitions of scanned fields, in order.
pub open spec fn defs_of(fs: Seq<FieldView>) -> Seq<FieldDefView> {
    fs.map_values(|f: FieldView| def_of(f))
}

/// Table names of models, in order.
pub open spec fn model_keys(ms: Seq<ModelView>) -> Seq<Seq<char>> {
    ms.map_values(|m: ModelView| m.table)
}

/// Table names of edges, in order.
pub open spec fn edge_keys(es: Seq<EdgeView>) -> Seq<Seq<char>> {
    es.map_values(|e: EdgeView| e.table)
}

/// Names of fields, in order.
pub open spec fn field_keys(fs: Seq<FieldView>) -> Seq<Seq<char>> {
    fs.map_values(|f: FieldView| f.name)
}

/// The model that a table name stands for: its last model.
pub open spec fn model_for(ms: Seq<ModelView>, t: Seq<char>) -> ModelView {
    ms[last_occ(model_keys(ms), t)]
}

/// The edge that an edge name stands for: its last edge.
pub open spec fn edge_for(es: Seq<EdgeView>, t: Seq<char>) -> EdgeView {
    es[last_occ(edge_keys(es), t)]
}

/// The field that a field name stands for: its last field.
pub open spec fn field_for(fs: Seq<FieldView>, n: Seq<char>) -> FieldView {
    fs[last_occ(field_keys(fs), n)]
}

/// The pass of the diff that a key list is walked for.
pub enum Pass {
    NewTables,
    GoneTables,
    SharedTables,
    NewEdges,
    GoneEdges,
}

/// The pass of a table's field diff.
pub enum FieldPass {
    NewFields,
    GoneFields,
    ChangedFields,
}

/// Forward and reverse operations that one field name contributes to a pass over
/// the fields of table `t`, with current model `cm` and target model `tm`.
pub open spec fn field_step(pass: FieldPass, t: Seq<char>, cm: ModelView, tm: ModelView, n: Seq<char>) -> (
    Seq<SchemaOpView>,
    Seq<SchemaOpView>,
) {
    let in_cur = field_keys(cm.fields).contains(n);
    let in_tgt = field_keys(tm.fields).contains(n);
    match pass {
        FieldPass::NewFields => if in_cur {
            (seq![], seq![])
        } else {
            (
                seq![SchemaOpView::AddField { table: t, field: def_of(field_for(tm.fields, n)) }],
                seq![SchemaOpView::DropField { table: t, field: n }],
            )
        },
        FieldPass::GoneFields => if in_tgt {
            (seq![], seq![])
        } else {
            (
                seq![SchemaOpView::DropField { table: t, field: n }],
                seq![SchemaOpView::AddField { table: t, field: def_of(field_for(cm.fields, n)) }],
            )
        },
        FieldPass::ChangedFields => if in_cur && field_for(tm.fields, n).ty != field_for(
            cm.fields,
            n,
        ).ty {
            (
                seq![
                    SchemaOpView::DropField { table: t, field: n },
                    SchemaOpView::AddField { table: t, field: def_of(field_for(tm.fields, n)) },
                ],
                seq![
                    SchemaOpView::DropField { table: t, field: n },
                    SchemaOpView::AddField { table: t, field: def_of(field_for(cm.fields, n)) },
                ],
            )
        } else {
            (seq![], seq![])
        },
    }
}

/// The operations of a field pass over `keys`, in key order.
pub open spec fn field_run(pass: FieldPass, t: Seq<char>, cm: ModelView, tm: ModelView, keys: Seq<
    Seq<char>,
>) -> (Seq<SchemaOpView>, Seq<SchemaOpView>)
    decreases keys.len(),
{
    if keys.len() == 0 {
        (seq![], seq![])
    } else {
        let prev = field_run(pass, t, cm, tm, keys.drop_last());
        let step = field_step(pass, t, cm, tm, keys.last());
        (prev.0 + step.0, prev.1 + step.1)
    }
}

/// The field operations of a table in both snapshots: additions, removals, then type changes,
/// each in field-name order.
pub open spec fn table_field_ops(t: Seq<char>, cm: ModelView, tm: ModelView) -> (
    Seq<SchemaOpView>,
    Seq<SchemaOpView>,
) {
    let tf = sorted_keys(field_keys(tm.fields));
    let cf = sorted_keys(field_keys(cm.fields));
    let a = field_run(FieldPass::NewFields, t, cm, tm, tf);
    let b = field_run(FieldPass::GoneFields, t, cm, tm, cf);
    let c = field_run(FieldPass::ChangedFields, t, cm, tm, tf);
    (a.0 + b.0 + c.0, a.1 + b.1 + c.1)
}

/// Forward and reverse operations that one key contributes to a pass.
pub open spec fn table_step(pass: Pass, cur: SnapshotView, tgt: SnapshotView, k: Seq<char>) -> (
    Seq<SchemaOpView>,
    Seq<SchemaOpView>,
) {
    let in_cur = model_keys(cur.models).contains(k);
    let in_tgt = model_keys(tgt.models).contains(k);
    let e_in_cur = edge_keys(cur.edges).contains(k);
    let e_in_tgt = edge_keys(tgt.edges).contains(k);
    match pass {
        Pass::NewTables => if in_cur {
            (seq![], seq![])
        } else {
            (
                seq![
                    SchemaOpView::CreateTable {
                        name: k,
                        fields: defs_of(model_for(tgt.models, k).fields),
                    },
                ],
                seq![SchemaOpView::DropTable { name: k }],
            )
        },
        Pass::GoneTables => if in_tgt {
            (seq![], seq![])
        } else {
            (
                seq![SchemaOpView::DropTable { name: k }],
                seq![
                    SchemaOpView::CreateTable {
                        name: k,
                        fields: defs_of(model_for(cur.models, k).fields),
                    },
                ],
            )
        },
        Pass::SharedTables => if in_cur {
            table_field_ops(k, model_for(cur.models, k), model_for(tgt.models, k))
        } else {
            (seq![], seq![])
        },
        Pass::NewEdges => if e_in_cur {
            (seq![], seq![])
        } else {
            let e = edge_for(tgt.edges, k);
            (
                seq![
                    SchemaOpView::CreateEdge {
                        name: k,
                        from: e.from,
                        to: e.to,
                        fields: defs_of(e.fields),
                    },
                ],
                seq![SchemaOpView::DropEdge { name: k }],
            )
        },
        Pass::GoneEdges => if e_in_tgt {
            (seq![], seq![])
        } else {
            let e = edge_for(cur.edges, k);
            (
                seq![SchemaOpView::DropEdge { name: k }],
                seq![
                    SchemaOpView::CreateEdge {
                        name: k,
                        from: e.from,
                        to: e.to,
                        fields: defs_of(e.fields),
                    },
                ],
            )
        },
    }
}

/// The operations of a pass over `keys`, in key order.
pub open spec fn table_run(pass: Pass, cur: SnapshotView, tgt: SnapshotView, keys: Seq<Seq<char>>) -> (
    Seq<SchemaOpView>,
    Seq<SchemaOpView>,
)
    decreases keys.len(),
{
    if keys.len() == 0 {
        (seq![], seq![])
    } else {
        let prev = table_run(pass, cur, tgt, keys.drop_last());
        let step = table_step(pass, cur, tgt, keys.last());
        (prev.0 + step.0, prev.1 + step.1)
    }
}

/// The diff of two snapshots: new tables, dropped tables, field changes of shared tables,
/// new edges, dropped edges; each pass in name order.
pub open spec fn spec_diff(cur: SnapshotView, tgt: SnapshotView) -> (
    Seq<SchemaOpView>,
    Seq<SchemaOpView>,
) {
    let tk = sorted_keys(model_keys(tgt.models));
    let ck = sorted_keys(model_keys(cur.models));
    let tek = sorted_keys(edge_keys(tgt.edges));
    let cek = sorted_keys(edge_keys(cur.edges));
    let a = table_run(Pass::NewTables, cur, tgt, tk);
    let b = table_run(Pass::GoneTables, cur, tgt, ck);
    let c = table_run(Pass::SharedTables, cur, tgt, tk);
    let d = table_run(Pass::NewEdges, cur, tgt, tek);
    let e = table_run(Pass::GoneEdges, cur, tgt, cek);
    (a.0 + b.0 + c.0 + d.0 + e.0, a.1 + b.1 + c.1 + d.1 + e.1)
}

// ---------------------------------------------------------------------------
// Implementation
// ---------------------------------------------------------------------------

fn map_field_type(ft: &FieldType) -> (r: OpType)
    ensures
        r@ == spec_map_field_type(ft@),
{
    match ft {
        FieldType::String => OpType::String,
        FieldType::Int64 => OpType::Int64,
        FieldType::Float64 => OpType::Float64,
        FieldType::Bool => OpType::Bool,
        FieldType::DateTime => OpType::DateTime,
        FieldType::Uuid => OpType::Uuid,
        FieldType::Json => OpType::Json,
        FieldType::Other(s) => OpType::Other(s.clone()),
    }
}

fn field_def(f: &Field) -> (r: FieldDef)
    ensures
        r@ == def_of(f@),
{
    FieldDef { name: f.name.clone(), ty: map_field_type(&f.ty), primary: f.primary }
}

fn field_defs(fs: &Vec<Field>) -> (r: Vec<FieldDef>)
    ensures
        field_defs_view(r@) == defs_of(fields_view(fs@)),
{
    let mut r: Vec<FieldDef> = Vec::new();
    let mut i: usize = 0;
    while i < fs.len()
        invariant
            0 <= i <= fs@.len(),
            r@.len() == i,
            forall|j: int| 0 <= j < i ==> (#[trigger] r@[j])@ == def_of(fs@[j]@),
        decreases fs@.len() - i,
    {
        r.push(field_def(&fs[i]));
        i += 1;
    }
    assert(field_defs_view(r@) =~= defs_of(fields_view(fs@)));
    r
}

fn table_names(ms: &Vec<Model>) -> (r: Vec<String>)
    ensures
        str_views(r@) == model_keys(ms@.map_values(|m: Model| m@)),
{
    let ghost mk = model_keys(ms@.map_values(|m: Model| m@));
    let mut r: Vec<String> = Vec::new();
    let mut i: usize = 0;
    while i < ms.len()
        invariant
            0 <= i <= ms@.len(),
            mk == model_keys(ms@.map_values(|m: Model| m@)),
            r@.len() == i,
            forall|j: int| 0 <= j < i ==> (#[trigger] r@[j])@ == ms@[j].table@,
        decreases ms@.len() - i,
    {
        r.push(ms[i].table.clone());
        i += 1;
    }
    assert(str_views(r@) =~= mk);
    r
}

fn edge_names(es: &Vec<Edge>) -> (r: Vec<String>)
    ensures
        str_views(r@) == edge_keys(es@.map_values(|e: Edge| e@)),
{
    let ghost ek = edge_keys(es@.map_values(|e: Edge| e@));
    let mut r: Vec<String> = Vec::new();
    let mut i: usize = 0;
    while i < es.len()
        invariant
            0 <= i <= es@.len(),
            ek == edge_keys(es@.map_values(|e: Edge| e@)),
            r@.len() == i,
            forall|j: int| 0 <= j < i ==> (#[trigger] r@[j])@ == es@[j].table@,
        decreases es@.len() - i,
    {
        r.push(es[i].table.clone());
        i += 1;
    }
    assert(str_views(r@) =~= ek);
    r
}

fn field_names(fs: &Vec<Field>) -> (r: Vec<String>)
    ensures
        str_views(r@) == field_keys(fields_view(fs@)),
{
    let ghost fk = field_keys(fields_view(fs@));
    let mut r: Vec<String> = Vec::new();
    let mut i: usize = 0;
    while i < fs.len()
        invariant
            0 <= i <= fs@.len(),
            fk == field_keys(fields_view(fs@)),
            r@.len() == i,
            forall|j: int| 0 <= j < i ==> (#[trigger] r@[j])@ == fs@[j].name@,
        decreases fs@.len() - i,
    {
        r.push(fs[i].name.clone());
        i += 1;
    }
    assert(str_views(r@) =~= fk);
    r
}

/// Whether `keys` holds `k`.
fn has_key(keys: &Vec<String>, k: &str) -> (r: bool)
    ensures
        r == str_views(keys@).contains(k@),
{
    let mut i: usize = 0;
    while i < keys.len()
        invariant
            0 <= i <= keys@.len(),
            forall|j: int| 0 <= j < i ==> str_views(keys@)[j] != k@,
        decreases keys@.len() - i,
    {
        if crate::text::str_eq(keys[i].as_str(), k) {
            assert(str_views(keys@)[i as int] == k@);
            return true;
        }
        i += 1;
    }
    false
}

/// Position in `keys` of the last occurrence of `k` (which `keys` holds).
fn last_pos(keys: &Vec<String>, k: &str) -> (r: usize)
    requires
        str_views(keys@).contains(k@),
    ensures
        r as int == last_occ(str_views(keys@), k@),
        r < keys@.len(),
{
    proof {
        crate::keyindex::lemma_last_occ_bounds(str_views(keys@), k@);
    }
    let mut i: usize = keys.len();
    while i > 0
        invariant
            0 <= i <= keys@.len(),
            str_views(keys@).contains(k@),
            last_occ(str_views(keys@), k@) < i,
            -1 <= last_occ(str_views(keys@), k@),
            last_occ(str_views(keys@), k@) >= 0 ==> str_views(keys@)[last_occ(
                str_views(keys@),
                k@,
            )] == k@,
            last_occ(str_views(keys@), k@) == -1 <==> !str_views(keys@).contains(k@),
            forall|j: int|
                last_occ(str_views(keys@), k@) < j < keys@.len() ==> str_views(keys@)[j] != k@,
        decreases i,
    {
        if crate::text::str_eq(keys[i - 1].as_str(), k) {
            assert(str_views(keys@)[i - 1] == k@);
            return i - 1;
        }
        i -= 1;
    }
    0
}


/// Appends `more` to `ops`.
fn append_ops(ops: &mut Vec<SchemaOp>, more: Vec<SchemaOp>)
    ensures
        ops_view(final(ops)@) == ops_view(old(ops)@) + ops_view(more@),
{
    let mut more = more;
    let ghost a = ops@;
    let ghost b = more@;
    ops.append(&mut more);
    assert(ops_view(ops@) =~= ops_view(a) + ops_view(b));
}

/// The key names of the two snapshots.
struct Names {
    cur_models: Vec<String>,
    tgt_models: Vec<String>,
    cur_edges: Vec<String>,
    tgt_edges: Vec<String>,
}

impl Names {
    spec fn wf(&self, cur: SnapshotView, tgt: SnapshotView) -> bool {
        &&& str_views(self.cur_models@) == model_keys(cur.models)
        &&& str_views(self.tgt_models@) == model_keys(tgt.models)
        &&& str_views(self.cur_edges@) == edge_keys(cur.edges)
        &&& str_views(self.tgt_edges@) == edge_keys(tgt.edges)
    }
}

proof fn lemma_model_for(ms: Seq<Model>, k: Seq<char>, pos: int)
    requires
        0 <= pos < ms.len(),
        pos == last_occ(model_keys(ms.map_values(|m: Model| m@)), k),
    ensures
        model_for(ms.map_values(|m: Model| m@), k) == ms[pos]@,
{
}

proof fn lemma_edge_for(es: Seq<Edge>, k: Seq<char>, pos: int)
    requires
        0 <= pos < es.len(),
        pos == last_occ(edge_keys(es.map_values(|e: Edge| e@)), k),
    ensures
        edge_for(es.map_values(|e: Edge| e@), k) == es[pos]@,
{
}

/// The names a pass walks (before sorting).
pub open spec fn pass_keys(pass: Pass, cur: SnapshotView, tgt: SnapshotView) -> Seq<Seq<char>> {
    match pass {
        Pass::NewTables => model_keys(tgt.models),
        Pass::SharedTables => model_keys(tgt.models),
        Pass::GoneTables => model_keys(cur.models),
        Pass::NewEdges => edge_keys(tgt.edges),
        Pass::GoneEdges => edge_keys(cur.edges),
    }
}

/// The names a field pass walks (before sorting).
pub open spec fn field_pass_keys(pass: FieldPass, cm: ModelView, tm: ModelView) -> Seq<Seq<char>> {
    match pass {
        FieldPass::NewFields => field_keys(tm.fields),
        FieldPass::ChangedFields => field_keys(tm.fields),
        FieldPass::GoneFields => field_keys(cm.fields),
    }
}

/// The operations one field name contributes to a field pass over table `t`.
fn field_step_exec(
    pass: &FieldPass,
    t: &str,
    cm: &Model,
    tm: &Model,
    cnames: &Vec<String>,
    tnames: &Vec<String>,
    n: &str,
) -> (r: (Vec<SchemaOp>, Vec<SchemaOp>))
    requires
        str_views(cnames@) == field_keys(cm@.fields),
        str_views(tnames@) == field_keys(tm@.fields),
        field_pass_keys(*pass, cm@, tm@).contains(n@),
    ensures
        (ops_view(r.0@), ops_view(r.1@)) == field_step(*pass, t@, cm@, tm@, n@),
{
    let mut f: Vec<SchemaOp> = Vec::new();
    let mut b: Vec<SchemaOp> = Vec::new();
    match pass {
        FieldPass::NewFields => {
            if !has_key(cnames, n) {
                let pos = last_pos(tnames, n);
                f.push(SchemaOp::AddField { table: crate::text::owned(t), field: field_def(&tm.fields[pos]) });
                b.push(drop_field_op(t, n));
            }
        },
        FieldPass::GoneFields => {
            if !has_key(tnames, n) {
                let pos = last_pos(cnames, n);
                f.push(drop_field_op(t, n));
                b.push(SchemaOp::AddField { table: crate::text::owned(t), field: field_def(&cm.fields[pos]) });
            }
        },
        FieldPass::ChangedFields => {
            if has_key(cnames, n) {
                let tpos = last_pos(tnames, n);
                let cpos = last_pos(cnames, n);
                if !tm.fields[tpos].ty.same_as(&cm.fields[cpos].ty) {
                    f.push(drop_field_op(t, n));
                    f.push(SchemaOp::AddField { table: crate::text::owned(t), field: field_def(&tm.fields[tpos]) });
                    b.push(drop_field_op(t, n));
                    b.push(SchemaOp::AddField { table: crate::text::owned(t), field: field_def(&cm.fields[cpos]) });
                }
            }
        },
    }
    proof {
        assert(ops_view(f@) =~= field_step(*pass, t@, cm@, tm@, n@).0);
        assert(ops_view(b@) =~= field_step(*pass, t@, cm@, tm@, n@).1);
    }
    (f, b)
}

/// Runs a field pass over the names listed by `idx` into `keys`.
fn field_run_exec(
    pass: &FieldPass,
    t: &str,
    cm: &Model,
    tm: &Model,
    cnames: &Vec<String>,
    tnames: &Vec<String>,
    keys: &Vec<String>,
    idx: &Vec<usize>,
    fwd: &mut Vec<SchemaOp>,
    rev: &mut Vec<SchemaOp>,
)
    requires
        str_views(cnames@) == field_keys(cm@.fields),
        str_views(tnames@) == field_keys(tm@.fields),
        str_views(keys@) == field_pass_keys(*pass, cm@, tm@),
        forall|j: int| 0 <= j < idx@.len() ==> #[trigger] idx@[j] < keys@.len(),
    ensures
        ops_view(final(fwd)@) == ops_view(old(fwd)@) + field_run(
            *pass,
            t@,
            cm@,
            tm@,
            keys_at(str_views(keys@), idx@),
        ).0,
        ops_view(final(rev)@) == ops_view(old(rev)@) + field_run(
            *pass,
            t@,
            cm@,
            tm@,
            keys_at(str_views(keys@), idx@),
        ).1,
{
    let ghost ks = keys_at(str_views(keys@), idx@);
    let ghost f0 = ops_view(fwd@);
    let ghost b0 = ops_view(rev@);
    let mut j: usize = 0;
    assert(ks.take(0) =~= Seq::<Seq<char>>::empty());
    while j < idx.len()
        invariant
            0 <= j <= idx@.len(),
            ks == keys_at(str_views(keys@), idx@),
            str_views(cnames@) == field_keys(cm@.fields),
            str_views(tnames@) == field_keys(tm@.fields),
            str_views(keys@) == field_pass_keys(*pass, cm@, tm@),
            forall|q: int| 0 <= q < idx@.len() ==> #[trigger] idx@[q] < keys@.len(),
            ops_view(fwd@) == f0 + field_run(*pass, t@, cm@, tm@, ks.take(j as int)).0,
            ops_view(rev@) == b0 + field_run(*pass, t@, cm@, tm@, ks.take(j as int)).1,
        decreases idx@.len() - j,
    {
        let n = keys[idx[j]].as_str();
        assert(ks[j as int] == n@);
        assert(str_views(keys@)[idx@[j as int] as int] == n@);
        let (f, b) = field_step_exec(pass, t, cm, tm, cnames, tnames, n);
        append_ops(fwd, f);
        append_ops(rev, b);
        assert(ks.take(j + 1).drop_last() =~= ks.take(j as int));
        assert(ks.take(j + 1).last() == n@);
        j += 1;
    }
    assert(ks.take(idx@.len() as int) =~= ks);
}

/// The field operations of a table present in both snapshots.
fn table_field_ops_exec(t: &str, cm: &Model, tm: &Model) -> (r: (Vec<SchemaOp>, Vec<SchemaOp>))
    ensures
        (ops_view(r.0@), ops_view(r.1@)) == table_field_ops(t@, cm@, tm@),
{
    let cnames = field_names(&cm.fields);
    let tnames = field_names(&tm.fields);
    let cidx = sorted_index(&cnames);
    let tidx = sorted_index(&tnames);
    let mut f: Vec<SchemaOp> = Vec::new();
    let mut b: Vec<SchemaOp> = Vec::new();
    field_run_exec(&FieldPass::NewFields, t, cm, tm, &cnames, &tnames, &tnames, &tidx, &mut f, &mut b);
    field_run_exec(&FieldPass::GoneFields, t, cm, tm, &cnames, &tnames, &cnames, &cidx, &mut f, &mut b);
    field_run_exec(&FieldPass::ChangedFields, t, cm, tm, &cnames, &tnames, &tnames, &tidx, &mut f, &mut b);
    proof {
        let e = Seq::<SchemaOpView>::empty();
        assert(ops_view(Seq::<SchemaOp>::empty()) =~= e);
        assert(e + table_field_ops(t@, cm@, tm@).0 =~= table_field_ops(t@, cm@, tm@).0);
    }
    (f, b)
}

/// The operations one key contributes to a table or edge pass.
fn table_step_exec(pass: &Pass, cur: &SchemaSnapshot, tgt: &SchemaSnapshot, names: &Names, k: &str) -> (r: (
    Vec<SchemaOp>,
    Vec<SchemaOp>,
))
    requires
        names.wf(cur@, tgt@),
        pass_keys(*pass, cur@, tgt@).contains(k@),
    ensures
        (ops_view(r.0@), ops_view(r.1@)) == table_step(*pass, cur@, tgt@, k@),
{
    let mut f: Vec<SchemaOp> = Vec::new();
    let mut b: Vec<SchemaOp> = Vec::new();
    match pass {
        Pass::NewTables => {
            if !has_key(&names.cur_models, k) {
                let pos = last_pos(&names.tgt_models, k);
                proof {
                    lemma_model_for(tgt.models@, k@, pos as int);
                }
                let m = &tgt.models[pos];
                f.push(SchemaOp::CreateTable { name: crate::text::owned(k), fields: field_defs(&m.fields) });
                b.push(drop_table_op(k));
            }
        },
        Pass::GoneTables => {
            if !has_key(&names.tgt_models, k) {
                let pos = last_pos(&names.cur_models, k);
                proof {
                    lemma_model_for(cur.models@, k@, pos as int);
                }
                let m = &cur.models[pos];
                f.push(drop_table_op(k));
                b.push(SchemaOp::CreateTable { name: crate::text::owned(k), fields: field_defs(&m.fields) });
            }
        },
        Pass::SharedTables => {
            if has_key(&names.cur_models, k) {
                let cpos = last_pos(&names.cur_models, k);
                let tpos = last_pos(&names.tgt_models, k);
                proof {
                    lemma_model_for(cur.models@, k@, cpos as int);
                    lemma_model_for(tgt.models@, k@, tpos as int);
                }
                let (ff, bb) = table_field_ops_exec(k, &cur.models[cpos], &tgt.models[tpos]);
                f = ff;
                b = bb;
            }
        },
        Pass::NewEdges => {
            if !has_key(&names.cur_edges, k) {
                let pos = last_pos(&names.tgt_edges, k);
                proof {
                    lemma_edge_for(tgt.edges@, k@, pos as int);
                }
                let e = &tgt.edges[pos];
                f.push(
                    SchemaOp::CreateEdge {
                        name: crate::text::owned(k),
                        from: e.from.clone(),
                        to: e.to.clone(),
                        fields: field_defs(&e.fields),
                    },
                );
                b.push(drop_edge_op(k));
            }
        },
        Pass::GoneEdges => {
            if !has_key(&names.tgt_edges, k) {
                let pos = last_pos(&names.cur_edges, k);
                proof {
                    lemma_edge_for(cur.edges@, k@, pos as int);
                }
                let e = &cur.edges[pos];
                f.push(drop_edge_op(k));
                b.push(
                    SchemaOp::CreateEdge {
                        name: crate::text::owned(k),
                        from: e.from.clone(),
                        to: e.to.clone(),
                        fields: field_defs(&e.fields),
                    },
                );
            }
        },
    }
    proof {
        assert(ops_view(f@) =~= table_step(*pass, cur@, tgt@, k@).0);
        assert(ops_view(b@) =~= table_step(*pass, cur@, tgt@, k@).1);
    }
    (f, b)
}


/// Runs a table or edge pass over the names listed by `idx` into `keys`.
fn table_run_exec(
    pass: &Pass,
    cur: &SchemaSnapshot,
    tgt: &SchemaSnapshot,
    names: &Names,
    keys: &Vec<String>,
    idx: &Vec<usize>,
    fwd: &mut Vec<SchemaOp>,
    rev: &mut Vec<SchemaOp>,
)
    requires
        names.wf(cur@, tgt@),
        str_views(keys@) == pass_keys(*pass, cur@, tgt@),
        forall|j: int| 0 <= j < idx@.len() ==> #[trigger] idx@[j] < keys@.len(),
    ensures
        ops_view(final(fwd)@) == ops_view(old(fwd)@) + table_run(
            *pass,
            cur@,
            tgt@,
            keys_at(str_views(keys@), idx@),
        ).0,
        ops_view(final(rev)@) == ops_view(old(rev)@) + table_run(
            *pass,
            cur@,
            tgt@,
            keys_at(str_views(keys@), idx@),
        ).1,
{
    let ghost ks = keys_at(str_views(keys@), idx@);
    let ghost f0 = ops_view(fwd@);
    let ghost b0 = ops_view(rev@);
    let mut j: usize = 0;
    assert(ks.take(0) =~= Seq::<Seq<char>>::empty());
    while j < idx.len()
        invariant
            0 <= j <= idx@.len(),
            ks == keys_at(str_views(keys@), idx@),
            names.wf(cur@, tgt@),
            str_views(keys@) == pass_keys(*pass, cur@, tgt@),
            forall|q: int| 0 <= q < idx@.len() ==> #[trigger] idx@[q] < keys@.len(),
            ops_view(fwd@) == f0 + table_run(*pass, cur@, tgt@, ks.take(j as int)).0,
            ops_view(rev@) == b0 + table_run(*pass, cur@, tgt@, ks.take(j as int)).1,
        decreases idx@.len() - j,
    {
        let k = keys[idx[j]].as_str();
        assert(ks[j as int] == k@);
        assert(str_views(keys@)[idx@[j as int] as int] == k@);
        let (f, b) = table_step_exec(pass, cur, tgt, names, k);
        append_ops(fwd, f);
        append_ops(rev, b);
        assert(ks.take(j + 1).drop_last() =~= ks.take(j as int));
        assert(ks.take(j + 1).last() == k@);
        j += 1;
    }
    assert(ks.take(idx@.len() as int) =~= ks);
}

/// Computes the operations that take `current` to `target` (`ops_forward`) and back
/// (`ops_reverse`): tables only in the target are created and tables only in the current
/// snapshot dropped; in tables of both, fields are added, dropped, or dropped and re-added
/// when their type changed; edges only in the target are created and edges only in the
/// current snapshot dropped. Tables, edges and fields are each taken once, by name, in name
/// order, the last entry of a name standing for it.
pub fn diff_schemas(current: &SchemaSnapshot, target: &SchemaSnapshot) -> (r: DiffResult)
    ensures
        ops_view(r.ops_forward@) == spec_diff(current@, target@).0,
        ops_view(r.ops_reverse@) == spec_diff(current@, target@).1,
{
    let names = Names {
        cur_models: table_names(&current.models),
        tgt_models: table_names(&target.models),
        cur_edges: edge_names(&current.edges),
        tgt_edges: edge_names(&target.edges),
    };
    let cidx = sorted_index(&names.cur_models);
    let tidx = sorted_index(&names.tgt_models);
    let ceidx = sorted_index(&names.cur_edges);
    let teidx = sorted_index(&names.tgt_edges);
    let mut fwd: Vec<SchemaOp> = Vec::new();
    let mut rev: Vec<SchemaOp> = Vec::new();
    table_run_exec(&Pass::NewTables, current, target, &names, &names.tgt_models, &tidx, &mut fwd, &mut rev);
    table_run_exec(&Pass::GoneTables, current, target, &names, &names.cur_models, &cidx, &mut fwd, &mut rev);
    table_run_exec(&Pass::SharedTables, current, target, &names, &names.tgt_models, &tidx, &mut fwd, &mut rev);
    table_run_exec(&Pass::NewEdges, current, target, &names, &names.tgt_edges, &teidx, &mut fwd, &mut rev);
    table_run_exec(&Pass::GoneEdges, current, target, &names, &names.cur_edges, &ceidx, &mut fwd, &mut rev);
    proof {
        let e = Seq::<SchemaOpView>::empty();
        assert(ops_view(Seq::<SchemaOp>::empty()) =~= e);
        assert(e + spec_diff(current@, target@).0 =~= spec_diff(current@, target@).0);
    }
    DiffResult { ops_forward: fwd, ops_reverse: rev }
}

} // verus!
