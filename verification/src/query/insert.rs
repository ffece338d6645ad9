//! The `INSERT` builder.
use vstd::prelude::*;
use crate::json::{json_of_string, json_string};
use crate::query::ast::{binds_without, Insert, Query, Stmt};
use crate::schema::IntoTableName;
use crate::text::owned;
use crate::traits::Insertable;

verus! {

/// Builder for inserting a homogeneous set of records (nodes or edges).
pub struct InsertBuilder<T: Insertable> {
    pub values: Vec<T>,
    pub table: &'static str,
    pub endpoint_fields: Option<(&'static str, &'static str)>,
}

/// The builder for the given records, table and edge endpoint field names.
pub fn insert_with<T: Insertable>(
    values: Vec<T>,
    table: &'static str,
    endpoint_fields: Option<(&'static str, &'static str)>,
) -> (r: InsertBuilder<T>)
    ensures
        r.values == values,
        r.table == table,
        r.endpoint_fields == endpoint_fields,
{
    InsertBuilder { values, table, endpoint_fields }
}

/// What `insert(values)` gives: the records, the table `T::table_name()` returns and the
/// endpoint field names `T::endpoint_fields()` returns.
pub open spec fn inserts_into_own_table<T: Insertable>(values: Vec<T>, b: InsertBuilder<T>) -> bool {
    &&& b.values == values
    &&& call_ensures(T::table_name, (), b.table)
    &&& call_ensures(T::endpoint_fields, (), b.endpoint_fields)
}

/// What `insert_into(table, values)` gives: the records, the table the handle names and the
/// endpoint field names `T::endpoint_fields()` returns.
pub open spec fn inserts_into<T: Insertable, N: IntoTableName>(table: N, values: Vec<T>, b: InsertBuilder<T>) -> bool {
    &&& b.values == values
    &&& b.table == table.spec_table_name()
    &&& call_ensures(T::endpoint_fields, (), b.endpoint_fields)
}

/// Inserts `values` into the table of `T`, with `T`'s endpoint field names.
pub fn insert<T: Insertable>(values: Vec<T>) -> (r: InsertBuilder<T>)
    ensures
        inserts_into_own_table(values, r),
{
    let table = T::table_name();
    let endpoints = T::endpoint_fields();
    insert_with(values, table, endpoints)
}

/// Inserts `values` into the given table, with `T`'s endpoint field names.
pub fn insert_into<T: Insertable>(table: impl IntoTableName, values: Vec<T>) -> (r: InsertBuilder<T>)
    ensures
        inserts_into(table, values, r),
{
    let t = table.table_name();
    let endpoints = T::endpoint_fields();
    insert_with(values, t, endpoints)
}

/// Inserting into a table handle that names `T`'s own table (a table `T::table_name()`
/// returns) gives what `insert` gives: same records, table and endpoint field names.
pub proof fn lemma_insert_into_own_table<T: Insertable, N: IntoTableName>(table: N, values: Vec<T>, b: InsertBuilder<T>)
    requires
        inserts_into(table, values, b),
        call_ensures(T::table_name, (), table.spec_table_name()),
    ensures
        inserts_into_own_table(values, b),
{
}

impl<T: Insertable> InsertBuilder<T> {
    /// Returns the builder unchanged (reads as `insert(..).into()`).
    pub fn into(self) -> (r: Self)
        ensures
            r == self,
    {
        self
    }

    /// The query inserting the records, given their JSON array form `values_json`. For edges,
    /// the source and target field names are bound as `__jxn_edge_src` and `__jxn_edge_tgt`.
    pub fn query_with(&self, values_json: serde_json::Value) -> (r: Query)
        ensures
            r.stmt == Stmt::Insert(Insert { table: self.table, values: values_json, endpoint_fields: self.endpoint_fields }),
            self.endpoint_fields is None ==> r.binds@.len() == 0,
            self.endpoint_fields matches Some((src, tgt)) ==> {
                &&& r.binds@.len() == 2
                &&& r.binds@[0].0@ == "__jxn_edge_src"@
                &&& r.binds@[0].1 == json_of_string(src@)
                &&& r.binds@[1].0@ == "__jxn_edge_tgt"@
                &&& r.binds@[1].1 == json_of_string(tgt@)
            },
    {
        let q = Query::new(Stmt::Insert(Insert { table: self.table, values: values_json, endpoint_fields: self.endpoint_fields }));
        match self.endpoint_fields {
            Some((src, tgt)) => {
                let q = q.bind(owned("__jxn_edge_src"), json_string(owned(src)));
                proof {
                    reveal(Seq::filter);
                    reveal_strlit("__jxn_edge_src");
                    reveal_strlit("__jxn_edge_tgt");
                    assert(binds_without(Seq::<(String, serde_json::Value)>::empty(), "__jxn_edge_src"@) =~= Seq::<(String, serde_json::Value)>::empty());
                }
                let q = q.bind(owned("__jxn_edge_tgt"), json_string(owned(tgt)));
                proof {
                    assert("__jxn_edge_src"@ != "__jxn_edge_tgt"@) by {
                        assert("__jxn_edge_src"@[12] != "__jxn_edge_tgt"@[12]);
                    }
                }
                q
            },
            None => q,
        }
    }
}

} // verus!
