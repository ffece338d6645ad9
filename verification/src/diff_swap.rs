//! Diffing the other way round: the forward operations of `diff(b, a)` are the reverse
//! operations of `diff(a, b)` and the other way about (up to order), and every diff has as
//! many reverse operations as forward ones.
use vstd::prelude::*;
use vstd::seq_lib::lemma_multiset_commutative;
use crate::keyindex::{lemma_sorted_keys_exist, lemma_sorted_unique, sorted_keys, strictly_sorted};
use crate::schema_ops::SchemaOpView;
use crate::snapshot::{ModelView, SnapshotView};
use crate::diff::{
    Pass, FieldPass, spec_diff, table_run, table_step, field_run, field_step, table_field_ops,
    model_keys, edge_keys, field_keys, model_for,
};

verus! {

/// Membership in a list of keys, as a predicate.
pub open spec fn in_keys(keys: Seq<Seq<char>>) -> spec_fn(Seq<char>) -> bool {
    |k: Seq<char>| keys.contains(k)
}

/// Filtering a strictly sorted sequence keeps it strictly sorted, and keeps exactly the
/// elements that satisfy the predicate.
proof fn lemma_sorted_filter(s: Seq<Seq<char>>, p: spec_fn(Seq<char>) -> bool)
    requires
        strictly_sorted(s),
    ensures
        strictly_sorted(s.filter(p)),
        forall|k: Seq<char>| s.filter(p).contains(k) <==> (s.contains(k) && p(k)),
    decreases s.len(),
{
    reveal(Seq::filter);
    if s.len() > 0 {
        let d = s.drop_last();
        assert(strictly_sorted(d)) by {
            assert forall|i: int, j: int| 0 <= i < j < d.len() implies crate::text::seq_lt(#[trigger] d[i], #[trigger] d[j]) by {
                assert(d[i] == s[i] && d[j] == s[j]);
            }
        }
        lemma_sorted_filter(d, p);
        let sub = d.filter(p);
        let f = s.filter(p);
        if p(s.last()) {
            assert(f == sub.push(s.last()));
            assert forall|i: int, j: int| 0 <= i < j < f.len() implies crate::text::seq_lt(#[trigger] f[i], #[trigger] f[j]) by {
                if j == f.len() - 1 {
                    assert(f[i] == sub[i]);
                    assert(sub.contains(sub[i]));
                    assert(d.contains(sub[i]));
                    let m = choose|m: int| 0 <= m < d.len() && d[m] == sub[i];
                    assert(s[m] == sub[i]);
                    assert(crate::text::seq_lt(s[m], s[s.len() - 1]));
                } else {
                    assert(f[i] == sub[i] && f[j] == sub[j]);
                }
            }
        } else {
            assert(f == sub);
        }
        assert forall|k: Seq<char>| f.contains(k) <==> (s.contains(k) && p(k)) by {
            if s.contains(k) && p(k) {
                let m = choose|m: int| 0 <= m < s.len() && s[m] == k;
                if m < s.len() - 1 {
                    assert(d[m] == k);
                    assert(d.contains(k));
                    assert(sub.contains(k));
                    let q = choose|q: int| 0 <= q < sub.len() && sub[q] == k;
                    assert(f[q] == k);
                } else {
                    assert(f[f.len() - 1] == k);
                }
            }
            if f.contains(k) {
                let q = choose|q: int| 0 <= q < f.len() && f[q] == k;
                if p(s.last()) && q == f.len() - 1 {
                    assert(s[s.len() - 1] == k);
                } else {
                    assert(sub[q] == k);
                    assert(sub.contains(k));
                    assert(d.contains(k));
                    let m = choose|m: int| 0 <= m < d.len() && d[m] == k;
                    assert(s[m] == k);
                    assert(s.contains(k));
                }
            }
        }
    }
}

/// The sorted keys of `a` that `b` holds are the sorted keys of `b` that `a` holds.
proof fn lemma_common_keys(a: Seq<Seq<char>>, b: Seq<Seq<char>>)
    ensures
        sorted_keys(a).filter(in_keys(b)) == sorted_keys(b).filter(in_keys(a)),
{
    lemma_sorted_keys_exist(a);
    lemma_sorted_keys_exist(b);
    lemma_sorted_filter(sorted_keys(a), in_keys(b));
    lemma_sorted_filter(sorted_keys(b), in_keys(a));
    lemma_sorted_unique(sorted_keys(a).filter(in_keys(b)), sorted_keys(b).filter(in_keys(a)));
}

/// The pass that walks the same keys when the two snapshots change places.
pub open spec fn swap_pass(p: Pass) -> Pass {
    match p {
        Pass::NewTables => Pass::GoneTables,
        Pass::GoneTables => Pass::NewTables,
        Pass::SharedTables => Pass::SharedTables,
        Pass::NewEdges => Pass::GoneEdges,
        Pass::GoneEdges => Pass::NewEdges,
    }
}

/// The field pass that walks the same keys when the two models change places.
pub open spec fn swap_field_pass(p: FieldPass) -> FieldPass {
    match p {
        FieldPass::NewFields => FieldPass::GoneFields,
        FieldPass::GoneFields => FieldPass::NewFields,
        FieldPass::ChangedFields => FieldPass::ChangedFields,
    }
}

/// A table pass other than the shared one, with the snapshots swapped, gives the operations
/// of its counterpart with forward and reverse exchanged.
proof fn lemma_table_run_swap(p: Pass, a: SnapshotView, b: SnapshotView, ks: Seq<Seq<char>>)
    requires
        !(p is SharedTables),
    ensures
        table_run(p, b, a, ks).0 == table_run(swap_pass(p), a, b, ks).1,
        table_run(p, b, a, ks).1 == table_run(swap_pass(p), a, b, ks).0,
    decreases ks.len(),
{
    if ks.len() > 0 {
        lemma_table_run_swap(p, a, b, ks.drop_last());
    }
}

/// A field pass other than the changed-type one, with the models swapped, gives the
/// operations of its counterpart with forward and reverse exchanged.
proof fn lemma_field_run_swap(p: FieldPass, t: Seq<char>, cm: ModelView, tm: ModelView, ks: Seq<Seq<char>>)
    requires
        !(p is ChangedFields),
    ensures
        field_run(p, t, tm, cm, ks).0 == field_run(swap_field_pass(p), t, cm, tm, ks).1,
        field_run(p, t, tm, cm, ks).1 == field_run(swap_field_pass(p), t, cm, tm, ks).0,
    decreases ks.len(),
{
    if ks.len() > 0 {
        lemma_field_run_swap(p, t, cm, tm, ks.drop_last());
    }
}

/// The shared-table pass only has operations for tables of the current snapshot.
proof fn lemma_shared_run_filter(cur: SnapshotView, tgt: SnapshotView, ks: Seq<Seq<char>>)
    ensures
        table_run(Pass::SharedTables, cur, tgt, ks) == table_run(
            Pass::SharedTables,
            cur,
            tgt,
            ks.filter(in_keys(model_keys(cur.models))),
        ),
    decreases ks.len(),
{
    reveal(Seq::filter);
    if ks.len() > 0 {
        lemma_shared_run_filter(cur, tgt, ks.drop_last());
        let f = ks.filter(in_keys(model_keys(cur.models)));
        let sub = ks.drop_last().filter(in_keys(model_keys(cur.models)));
        if model_keys(cur.models).contains(ks.last()) {
            assert(f == sub.push(ks.last()));
            assert(f.drop_last() == sub);
        } else {
            assert(f == sub);
            let prev = table_run(Pass::SharedTables, cur, tgt, ks.drop_last());
            assert(prev.0 + seq![] =~= prev.0);
            assert(prev.1 + seq![] =~= prev.1);
        }
    }
}

/// The changed-type field pass only has operations for fields of the current model.
proof fn lemma_changed_run_filter(t: Seq<char>, cm: ModelView, tm: ModelView, ks: Seq<Seq<char>>)
    ensures
        field_run(FieldPass::ChangedFields, t, cm, tm, ks) == field_run(
            FieldPass::ChangedFields,
            t,
            cm,
            tm,
            ks.filter(in_keys(field_keys(cm.fields))),
        ),
    decreases ks.len(),
{
    reveal(Seq::filter);
    if ks.len() > 0 {
        lemma_changed_run_filter(t, cm, tm, ks.drop_last());
        let f = ks.filter(in_keys(field_keys(cm.fields)));
        let sub = ks.drop_last().filter(in_keys(field_keys(cm.fields)));
        if field_keys(cm.fields).contains(ks.last()) {
            assert(f == sub.push(ks.last()));
            assert(f.drop_last() == sub);
        } else {
            assert(f == sub);
            let prev = field_run(FieldPass::ChangedFields, t, cm, tm, ks.drop_last());
            assert(prev.0 + seq![] =~= prev.0);
            assert(prev.1 + seq![] =~= prev.1);
        }
    }
}

/// Over fields of both models, the changed-type pass with the models swapped exchanges
/// forward and reverse operations.
proof fn lemma_changed_run_swap(t: Seq<char>, cm: ModelView, tm: ModelView, ks: Seq<Seq<char>>)
    requires
        forall|k: Seq<char>| ks.contains(k) ==> field_keys(cm.fields).contains(k) && field_keys(tm.fields).contains(k),
    ensures
        field_run(FieldPass::ChangedFields, t, tm, cm, ks).0 == field_run(FieldPass::ChangedFields, t, cm, tm, ks).1,
        field_run(FieldPass::ChangedFields, t, tm, cm, ks).1 == field_run(FieldPass::ChangedFields, t, cm, tm, ks).0,
    decreases ks.len(),
{
    if ks.len() > 0 {
        assert forall|k: Seq<char>| ks.drop_last().contains(k) implies field_keys(cm.fields).contains(k)
            && field_keys(tm.fields).contains(k) by {
            let i = choose|i: int| 0 <= i < ks.drop_last().len() && ks.drop_last()[i] == k;
            assert(ks[i] == k);
            assert(ks.contains(k));
        }
        lemma_changed_run_swap(t, cm, tm, ks.drop_last());
        assert(ks.contains(ks.last())) by {
            assert(ks[ks.len() - 1] == ks.last());
        }
    }
}

/// The field operations of a table with the models swapped: forward and reverse exchanged,
/// up to order.
proof fn lemma_table_field_ops_swap(t: Seq<char>, cm: ModelView, tm: ModelView)
    ensures
        table_field_ops(t, tm, cm).0.to_multiset() == table_field_ops(t, cm, tm).1.to_multiset(),
        table_field_ops(t, tm, cm).1.to_multiset() == table_field_ops(t, cm, tm).0.to_multiset(),
{
    broadcast use lemma_multiset_commutative;
    let tf = sorted_keys(field_keys(tm.fields));
    let cf = sorted_keys(field_keys(cm.fields));
    let a = field_run(FieldPass::NewFields, t, cm, tm, tf);
    let b = field_run(FieldPass::GoneFields, t, cm, tm, cf);
    let c = field_run(FieldPass::ChangedFields, t, cm, tm, tf);
    let a2 = field_run(FieldPass::NewFields, t, tm, cm, cf);
    let b2 = field_run(FieldPass::GoneFields, t, tm, cm, tf);
    let c2 = field_run(FieldPass::ChangedFields, t, tm, cm, cf);
    lemma_field_run_swap(FieldPass::NewFields, t, cm, tm, cf);
    lemma_field_run_swap(FieldPass::GoneFields, t, cm, tm, tf);
    lemma_changed_run_filter(t, cm, tm, tf);
    lemma_changed_run_filter(t, tm, cm, cf);
    lemma_common_keys(field_keys(tm.fields), field_keys(cm.fields));
    let l = tf.filter(in_keys(field_keys(cm.fields)));
    lemma_sorted_keys_exist(field_keys(tm.fields));
    lemma_sorted_filter(tf, in_keys(field_keys(cm.fields)));
    lemma_changed_run_swap(t, cm, tm, l);
    assert(c2.0 == c.1);
    assert(c2.1 == c.0);
    assert(a2.0 == b.1 && a2.1 == b.0);
    assert(b2.0 == a.1 && b2.1 == a.0);
    assert(table_field_ops(t, tm, cm).0 == b.1 + a.1 + c.1);
    assert(table_field_ops(t, cm, tm).1 == a.1 + b.1 + c.1);
    assert((b.1 + a.1 + c.1).to_multiset() =~= (a.1 + b.1 + c.1).to_multiset());
    assert((b.0 + a.0 + c.0).to_multiset() =~= (a.0 + b.0 + c.0).to_multiset());
}

/// Over tables of both snapshots, the shared-table pass with the snapshots swapped
/// exchanges forward and reverse operations, up to order.
proof fn lemma_shared_run_swap(a: SnapshotView, b: SnapshotView, ks: Seq<Seq<char>>)
    requires
        forall|k: Seq<char>| ks.contains(k) ==> model_keys(a.models).contains(k) && model_keys(b.models).contains(k),
    ensures
        table_run(Pass::SharedTables, b, a, ks).0.to_multiset() == table_run(Pass::SharedTables, a, b, ks).1.to_multiset(),
        table_run(Pass::SharedTables, b, a, ks).1.to_multiset() == table_run(Pass::SharedTables, a, b, ks).0.to_multiset(),
    decreases ks.len(),
{
    broadcast use lemma_multiset_commutative;
    if ks.len() > 0 {
        assert forall|k: Seq<char>| ks.drop_last().contains(k) implies model_keys(a.models).contains(k)
            && model_keys(b.models).contains(k) by {
            let i = choose|i: int| 0 <= i < ks.drop_last().len() && ks.drop_last()[i] == k;
            assert(ks[i] == k);
            assert(ks.contains(k));
        }
        lemma_shared_run_swap(a, b, ks.drop_last());
        let k = ks.last();
        assert(ks.contains(k)) by {
            assert(ks[ks.len() - 1] == k);
        }
        lemma_table_field_ops_swap(k, model_for(a.models, k), model_for(b.models, k));
        let p1 = table_run(Pass::SharedTables, b, a, ks.drop_last());
        let p2 = table_run(Pass::SharedTables, a, b, ks.drop_last());
        let s1 = table_step(Pass::SharedTables, b, a, k);
        let s2 = table_step(Pass::SharedTables, a, b, k);
        assert((p1.0 + s1.0).to_multiset() =~= (p2.1 + s2.1).to_multiset());
        assert((p1.1 + s1.1).to_multiset() =~= (p2.0 + s2.0).to_multiset());
    }
}

/// Diffing the other way round exchanges forward and reverse operations: the forward
/// operations of `diff_schemas(b, a)` are those of the reverse operations of
/// `diff_schemas(a, b)`, and its reverse operations those of the forward ones, each as a
/// multiset (the order can differ).
pub proof fn lemma_diff_swap(a: SnapshotView, b: SnapshotView)
    ensures
        spec_diff(b, a).0.to_multiset() == spec_diff(a, b).1.to_multiset(),
        spec_diff(b, a).1.to_multiset() == spec_diff(a, b).0.to_multiset(),
{
    broadcast use lemma_multiset_commutative;
    let ak = sorted_keys(model_keys(a.models));
    let bk = sorted_keys(model_keys(b.models));
    let aek = sorted_keys(edge_keys(a.edges));
    let bek = sorted_keys(edge_keys(b.edges));
    // diff(a, b)
    let n1 = table_run(Pass::NewTables, a, b, bk);
    let g1 = table_run(Pass::GoneTables, a, b, ak);
    let s1 = table_run(Pass::SharedTables, a, b, bk);
    let ne1 = table_run(Pass::NewEdges, a, b, bek);
    let ge1 = table_run(Pass::GoneEdges, a, b, aek);
    // diff(b, a)
    let n2 = table_run(Pass::NewTables, b, a, ak);
    let g2 = table_run(Pass::GoneTables, b, a, bk);
    let s2 = table_run(Pass::SharedTables, b, a, ak);
    let ne2 = table_run(Pass::NewEdges, b, a, aek);
    let ge2 = table_run(Pass::GoneEdges, b, a, bek);
    lemma_table_run_swap(Pass::NewTables, a, b, ak);
    lemma_table_run_swap(Pass::GoneTables, a, b, bk);
    lemma_table_run_swap(Pass::NewEdges, a, b, aek);
    lemma_table_run_swap(Pass::GoneEdges, a, b, bek);
    lemma_shared_run_filter(a, b, bk);
    lemma_shared_run_filter(b, a, ak);
    lemma_common_keys(model_keys(b.models), model_keys(a.models));
    lemma_sorted_keys_exist(model_keys(b.models));
    lemma_sorted_filter(bk, in_keys(model_keys(a.models)));
    let l = bk.filter(in_keys(model_keys(a.models)));
    lemma_shared_run_swap(a, b, l);
    assert(s2.0.to_multiset() == s1.1.to_multiset());
    assert(s2.1.to_multiset() == s1.0.to_multiset());
    assert(spec_diff(b, a).0 == n2.0 + g2.0 + s2.0 + ne2.0 + ge2.0);
    assert(spec_diff(a, b).1 == n1.1 + g1.1 + s1.1 + ne1.1 + ge1.1);
    assert(spec_diff(b, a).0.to_multiset() =~= spec_diff(a, b).1.to_multiset());
    assert(spec_diff(b, a).1.to_multiset() =~= spec_diff(a, b).0.to_multiset());
}

/// Each field pass gives as many reverse operations as forward ones.
proof fn lemma_field_run_len(p: FieldPass, t: Seq<char>, cm: ModelView, tm: ModelView, ks: Seq<Seq<char>>)
    ensures
        field_run(p, t, cm, tm, ks).0.len() == field_run(p, t, cm, tm, ks).1.len(),
    decreases ks.len(),
{
    if ks.len() > 0 {
        lemma_field_run_len(p, t, cm, tm, ks.drop_last());
    }
}

/// Each table pass gives as many reverse operations as forward ones.
proof fn lemma_table_run_len(p: Pass, cur: SnapshotView, tgt: SnapshotView, ks: Seq<Seq<char>>)
    ensures
        table_run(p, cur, tgt, ks).0.len() == table_run(p, cur, tgt, ks).1.len(),
    decreases ks.len(),
{
    if ks.len() > 0 {
        lemma_table_run_len(p, cur, tgt, ks.drop_last());
        let k = ks.last();
        if p is SharedTables && model_keys(cur.models).contains(k) {
            let cm = model_for(cur.models, k);
            let tm = model_for(tgt.models, k);
            lemma_field_run_len(FieldPass::NewFields, k, cm, tm, sorted_keys(field_keys(tm.fields)));
            lemma_field_run_len(FieldPass::GoneFields, k, cm, tm, sorted_keys(field_keys(cm.fields)));
            lemma_field_run_len(FieldPass::ChangedFields, k, cm, tm, sorted_keys(field_keys(tm.fields)));
        }
    }
}

/// Every diff has as many reverse operations as forward ones.
pub proof fn lemma_diff_balanced(cur: SnapshotView, tgt: SnapshotView)
    ensures
        spec_diff(cur, tgt).0.len() == spec_diff(cur, tgt).1.len(),
{
    lemma_table_run_len(Pass::NewTables, cur, tgt, sorted_keys(model_keys(tgt.models)));
    lemma_table_run_len(Pass::GoneTables, cur, tgt, sorted_keys(model_keys(cur.models)));
    lemma_table_run_len(Pass::SharedTables, cur, tgt, sorted_keys(model_keys(tgt.models)));
    lemma_table_run_len(Pass::NewEdges, cur, tgt, sorted_keys(edge_keys(tgt.edges)));
    lemma_table_run_len(Pass::GoneEdges, cur, tgt, sorted_keys(edge_keys(cur.edges)));
}

} // verus!
