//! The `SELECT` builder.
use vstd::prelude::*;
use std::marker::PhantomData;
use crate::expr::{All, ColumnOrder, Expr};
use crate::id::{SimpleId, uuid_hyphenated};
use crate::json::{json_of_string, json_string};
use crate::query::ast::{
    binds_without, Distinct, GroupBySpec, Query, Select, SelectField, Stmt,
};
use crate::query::lower::{lower_filter, lower_orders, spec_filter, spec_order_key};
use crate::schema::{Col, IntoTableName};
use crate::text::{owned, push_str};
use crate::traits::{Edge, Node};

verus! {

/// A column given either as a raw name or as a typed schema column.
pub trait IntoSelectColumn {
    /// The column name.
    spec fn spec_name(&self) -> &'static str;

    fn name(&self) -> (r: &'static str)
        ensures
            r == self.spec_name(),
    ;
}

impl IntoSelectColumn for &'static str {
    open spec fn spec_name(&self) -> &'static str {
        *self
    }

    fn name(&self) -> (r: &'static str) {
        *self
    }
}

impl<T> IntoSelectColumn for Col<T> {
    open spec fn spec_name(&self) -> &'static str {
        self.name
    }

    fn name(&self) -> (r: &'static str) {
        self.name
    }
}

/// Direction of a traversal relative to the starting node.
#[derive(Debug, Clone, Copy, PartialEq, Eq)]
pub enum TraversalDir {
    Out,
    In,
}

/// A traversal segment: edge table, direction and optional target node table.
#[derive(Debug, Clone, Copy, PartialEq, Eq)]
pub struct TraversalSeg {
    pub edge: &'static str,
    pub dir: TraversalDir,
    pub node: Option<&'static str>,
}

/// The SurrealQL path text of one segment: `->edge->node` or `<-edge<-node`.
pub open spec fn seg_text(s: TraversalSeg) -> Seq<char> {
    let arrow = match s.dir {
        TraversalDir::Out => seq!['-', '>'],
        TraversalDir::In => seq!['<', '-'],
    };
    arrow + s.edge@ + match s.node {
        Some(n) => arrow + n@,
        None => Seq::<char>::empty(),
    }
}

/// The path text of a chain of segments.
pub open spec fn path_text(segs: Seq<TraversalSeg>) -> Seq<char>
    decreases segs.len(),
{
    if segs.len() == 0 {
        Seq::<char>::empty()
    } else {
        path_text(segs.drop_last()) + seg_text(segs.last())
    }
}

/// The direction an arrow reads as in SurrealQL: `->` follows edges outward, `<-` inward.
pub open spec fn arrow_direction(arrow: Seq<char>) -> Option<TraversalDir> {
    if arrow == "->"@ {
        Some(TraversalDir::Out)
    } else if arrow == "<-"@ {
        Some(TraversalDir::In)
    } else {
        None
    }
}

/// A segment's text reads as that segment: it opens with the arrow of the segment's
/// direction followed by the edge table, and, where the segment names a node table, ends
/// with an arrow of the same direction followed by that table.
pub proof fn lemma_seg_text_reads_as_segment(seg: TraversalSeg)
    ensures
        ({
            let t = seg_text(seg);
            &&& t.len() >= 2 + seg.edge@.len() as int
            &&& arrow_direction(t.subrange(0, 2)) == Some(seg.dir)
            &&& t.subrange(2, 2 + seg.edge@.len() as int) == seg.edge@
            &&& seg.node matches Some(n) ==> {
                &&& t.len() == 4 + seg.edge@.len() as int + n@.len()
                &&& arrow_direction(t.subrange(2 + seg.edge@.len() as int, 4 + seg.edge@.len() as int)) == Some(seg.dir)
                &&& t.subrange(4 + seg.edge@.len() as int, t.len() as int) == n@
            }
            &&& seg.node is None ==> t.len() == 2 + seg.edge@.len() as int
        }),
{
    reveal_strlit("->");
    reveal_strlit("<-");
    let t = seg_text(seg);
    let e = seg.edge@;
    let arrow = match seg.dir {
        TraversalDir::Out => seq!['-', '>'],
        TraversalDir::In => seq!['<', '-'],
    };
    assert(t.subrange(0, 2) =~= arrow);
    assert(t.subrange(2, 2 + e.len() as int) =~= e);
    assert(arrow_direction(seq!['-', '>']) == Some(TraversalDir::Out)) by {
        assert(seq!['-', '>'] =~= "->"@);
    }
    assert(arrow_direction(seq!['<', '-']) == Some(TraversalDir::In)) by {
        assert(seq!['<', '-'] != "->"@) by {
            assert(seq!['<', '-'][0] != "->"@[0]);
        }
        assert(seq!['<', '-'] =~= "<-"@);
    }
    if let Some(n) = seg.node {
        assert(t.subrange(2 + e.len() as int, 4 + e.len() as int) =~= arrow);
        assert(t.subrange(4 + e.len() as int, t.len() as int) =~= n@);
    }
}

/// The path text of a chain is the texts of its segments in order, so each hop keeps its
/// segment's direction.
pub proof fn lemma_path_text_is_segments(segs: Seq<TraversalSeg>, i: int)
    requires
        0 <= i < segs.len(),
    ensures
        path_text(segs) == path_text(segs.take(i)) + seg_text(segs[i]) + path_text(segs.skip(i + 1)),
    decreases segs.len(),
{
    if i == segs.len() - 1 {
        assert(segs.take(i) =~= segs.drop_last());
        assert(segs.skip(i + 1) =~= Seq::<TraversalSeg>::empty());
        assert(path_text(segs.take(i)) + seg_text(segs[i]) + Seq::<char>::empty() =~= path_text(segs));
    } else {
        lemma_path_text_is_segments(segs.drop_last(), i);
        assert(segs.drop_last().take(i) =~= segs.take(i));
        assert(segs.drop_last()[i] == segs[i]);
        let rest = segs.skip(i + 1);
        assert(rest.drop_last() =~= segs.drop_last().skip(i + 1));
        assert(rest.last() == segs.last());
        assert(rest.len() > 0);
        assert(path_text(rest) == path_text(rest.drop_last()) + seg_text(rest.last()));
        assert(path_text(segs) =~= path_text(segs.take(i)) + seg_text(segs[i]) + path_text(segs.skip(i + 1)));
    }
}

/// The projection list once an implicit sole `*` has been removed.
pub open spec fn without_implicit_star(f: Seq<SelectField>) -> Seq<SelectField> {
    if f.len() == 1 && f[0] is Star {
        Seq::<SelectField>::empty()
    } else {
        f
    }
}

/// The projection fields of a list of columns.
pub open spec fn column_fields<C: IntoSelectColumn>(cols: Seq<C>) -> Seq<SelectField> {
    cols.map_values(|c: C| SelectField::Column(c.spec_name()))
}

/// Builder of `SELECT` statements returning rows of type `T`.
pub struct SelectBuilder<T> {
    pub table: Option<&'static str>,
    pub fields: Vec<SelectField>,
    pub filter: Option<Expr>,
    pub ordering: Vec<ColumnOrder>,
    pub limit: Option<u64>,
    pub group_by: Vec<GroupBySpec>,
    /// Optional id for selecting from a specific record `table:id`.
    pub record_id: Option<String>,
    /// Traversal segments to append after the base FROM target.
    pub traversal: Vec<TraversalSeg>,
    pub distinct: Option<Distinct>,
    pub _p: PhantomData<T>,
}

/// A select builder with the implicit `*` projection and nothing else.
pub fn select<T>(_all: All) -> (r: SelectBuilder<T>)
    ensures
        r.table is None,
        r.fields@.len() == 1,
        r.fields@[0] is Star,
        r.filter is None,
        r.ordering@.len() == 0,
        r.limit is None,
        r.group_by@.len() == 0,
        r.record_id is None,
        r.traversal@.len() == 0,
        r.distinct is None,
{
    let mut fields: Vec<SelectField> = Vec::new();
    fields.push(SelectField::Star);
    SelectBuilder {
        table: None,
        fields,
        filter: None,
        ordering: Vec::new(),
        limit: None,
        group_by: Vec::new(),
        record_id: None,
        traversal: Vec::new(),
        distinct: None,
        _p: PhantomData,
    }
}

impl<T> SelectBuilder<T> {
    /// Sets the table to select from.
    pub fn from(self, table: impl IntoTableName) -> (r: Self)
        ensures
            r == (SelectBuilder { table: Some(table.spec_table_name()), ..self }),
    {
        let t = table.table_name();
        SelectBuilder { table: Some(t), ..self }
    }

    /// Targets a specific record id (rendered as `table:id` by backends).
    pub fn record_id(self, id: String) -> (r: Self)
        ensures
            r == (SelectBuilder { record_id: Some(id), ..self }),
    {
        SelectBuilder { record_id: Some(id), ..self }
    }

    /// Selects a single row by its typed id: the node's table, the id's UUID as record id,
    /// and a limit of one row.
    pub fn by_id(self, id: SimpleId<T>) -> (r: Self)
        where
            T: Node,
        ensures
            r.table == Some(T::TABLE),
            r.record_id matches Some(s) && s@ == uuid_hyphenated(id.value),
            r.limit == Some(1u64),
            r.fields == self.fields,
            r.filter == self.filter,
            r.ordering == self.ordering,
            r.group_by == self.group_by,
            r.traversal == self.traversal,
            r.distinct == self.distinct,
    {
        let rid = id.as_uuid_str();
        SelectBuilder { table: Some(T::TABLE), record_id: Some(rid), limit: Some(1), ..self }
    }

    /// Traverses forward along edge `E` to nodes `N` (`->edge->node`).
    pub fn forward<E: Edge, N: Node>(self) -> (r: Self)
        ensures
            r.traversal@ == self.traversal@.push(TraversalSeg { edge: E::TABLE, dir: TraversalDir::Out, node: Some(N::TABLE) }),
            r == (SelectBuilder { traversal: r.traversal, ..self }),
    {
        let mut s = self;
        s.traversal.push(TraversalSeg { edge: E::TABLE, dir: TraversalDir::Out, node: Some(N::TABLE) });
        s
    }

    /// Traverses backward along edge `E` to nodes `N` (`<-edge<-node`).
    pub fn backward<E: Edge, N: Node>(self) -> (r: Self)
        ensures
            r.traversal@ == self.traversal@.push(TraversalSeg { edge: E::TABLE, dir: TraversalDir::In, node: Some(N::TABLE) }),
            r == (SelectBuilder { traversal: r.traversal, ..self }),
    {
        let mut s = self;
        s.traversal.push(TraversalSeg { edge: E::TABLE, dir: TraversalDir::In, node: Some(N::TABLE) });
        s
    }

    /// Appends a traversal segment with an explicit direction and no node type.
    pub fn traverse_edge(self, edge: &'static str, dir: TraversalDir) -> (r: Self)
        ensures
            r.traversal@ == self.traversal@.push(TraversalSeg { edge, dir, node: None }),
            r == (SelectBuilder { traversal: r.traversal, ..self }),
    {
        let mut s = self;
        s.traversal.push(TraversalSeg { edge, dir, node: None });
        s
    }

    /// Projects the accumulated traversal chain as a raw path expression (e.g.
    /// `->purchased->product`) and clears the chain; without a chain nothing changes.
    pub fn project_path(self) -> (r: Self)
        ensures
            self.traversal@.len() == 0 ==> r == self,
            self.traversal@.len() > 0 ==> {
                &&& r.traversal@.len() == 0
                &&& r.fields@.len() == self.fields@.len() + 1
                &&& r.fields@.take(self.fields@.len() as int) == self.fields@
                &&& r.fields@.last() matches SelectField::Expr { expr, alias }
                &&& expr@ == path_text(self.traversal@)
                &&& alias is None
                &&& r == (SelectBuilder { fields: r.fields, traversal: r.traversal, ..self })
            },
    {
        if self.traversal.len() == 0 {
            return self;
        }
        let mut s = self;
        let mut expr = String::new();
        let mut i: usize = 0;
        while i < s.traversal.len()
            invariant
                0 <= i <= s.traversal@.len(),
                expr@ == path_text(s.traversal@.take(i as int)),
            decreases s.traversal@.len() - i,
        {
            let seg = s.traversal[i];
            proof {
                reveal_strlit("->");
                reveal_strlit("<-");
            }
            let ghost before = expr@;
            match seg.dir {
                TraversalDir::Out => {
                    push_str(&mut expr, "->");
                    push_str(&mut expr, seg.edge);
                    match seg.node {
                        Some(n) => {
                            push_str(&mut expr, "->");
                            push_str(&mut expr, n);
                        },
                        None => {},
                    }
                },
                TraversalDir::In => {
                    push_str(&mut expr, "<-");
                    push_str(&mut expr, seg.edge);
                    match seg.node {
                        Some(n) => {
                            push_str(&mut expr, "<-");
                            push_str(&mut expr, n);
                        },
                        None => {},
                    }
                },
            }
            assert(s.traversal@.take(i + 1).drop_last() =~= s.traversal@.take(i as int));
            assert(s.traversal@.take(i + 1).last() == seg);
            assert(expr@ =~= before + seg_text(seg));
            i += 1;
        }
        assert(s.traversal@.take(s.traversal@.len() as int) =~= s.traversal@);
        s.fields.push(SelectField::Expr { expr, alias: None });
        s.traversal = Vec::new();
        s
    }

    /// Requests all columns: appends `*` unless the projection is already just the implicit `*`.
    pub fn star(self) -> (r: Self)
        ensures
            r.fields@ == if self.fields@.len() == 1 && self.fields@[0] is Star {
                self.fields@
            } else {
                self.fields@.push(SelectField::Star)
            },
            r == (SelectBuilder { fields: r.fields, ..self }),
    {
        let mut s = self;
        let sole_star = s.fields.len() == 1 && matches!(s.fields[0], SelectField::Star);
        if !sole_star {
            s.fields.push(SelectField::Star);
        }
        s
    }

    /// Removes the implicit sole `*` so that an explicit projection replaces it.
    fn clear_implicit_star(&mut self)
        ensures
            final(self).fields@ == without_implicit_star(old(self).fields@),
            *final(self) == (SelectBuilder { fields: final(self).fields, ..*old(self) }),
    {
        if self.fields.len() == 1 && matches!(self.fields[0], SelectField::Star) {
            self.fields = Vec::new();
        }
    }

    /// Projects the given columns (replacing the implicit `*`).
    pub fn columns<C: IntoSelectColumn>(self, cols: &[C]) -> (r: Self)
        ensures
            r.fields@ == without_implicit_star(self.fields@) + column_fields(cols@),
            r == (SelectBuilder { fields: r.fields, ..self }),
    {
        let mut s = self;
        s.clear_implicit_star();
        let ghost base = s.fields@;
        let ghost s0 = s;
        let mut i: usize = 0;
        while i < cols.len()
            invariant
                0 <= i <= cols@.len(),
                s == (SelectBuilder { fields: s.fields, ..s0 }),
                s0 == (SelectBuilder { fields: s0.fields, ..self }),
                s.fields@ == base + column_fields(cols@.take(i as int)),
            decreases cols@.len() - i,
        {
            let name = cols[i].name();
            s.fields.push(SelectField::Column(name));
            assert(column_fields(cols@.take(i + 1)) =~= column_fields(cols@.take(i as int)).push(
                SelectField::Column(cols@[i as int].spec_name()),
            ));
            i += 1;
        }
        assert(cols@.take(cols@.len() as int) =~= cols@);
        s
    }

    /// Alias for `columns`.
    pub fn project_fields<C: IntoSelectColumn>(self, cols: &[C]) -> (r: Self)
        ensures
            r.fields@ == without_implicit_star(self.fields@) + column_fields(cols@),
            r == (SelectBuilder { fields: r.fields, ..self }),
    {
        self.columns(cols)
    }

    /// Projects a single column.
    pub fn column<C: IntoSelectColumn>(self, col: C) -> (r: Self)
        ensures
            r.fields@ == without_implicit_star(self.fields@).push(SelectField::Column(col.spec_name())),
            r == (SelectBuilder { fields: r.fields, ..self }),
    {
        let mut s = self;
        s.clear_implicit_star();
        let name = col.name();
        s.fields.push(SelectField::Column(name));
        s
    }

    /// Projects a raw expression.
    pub fn expr(self, expr: String) -> (r: Self)
        ensures
            r.fields@ == without_implicit_star(self.fields@).push(SelectField::Expr { expr, alias: None }),
            r == (SelectBuilder { fields: r.fields, ..self }),
    {
        let mut s = self;
        s.clear_implicit_star();
        s.fields.push(SelectField::Expr { expr, alias: None });
        s
    }

    /// Projects a raw expression under an alias.
    pub fn expr_as(self, expr: String, alias: &'static str) -> (r: Self)
        ensures
            r.fields@ == without_implicit_star(self.fields@).push(SelectField::Expr { expr, alias: Some(alias) }),
            r == (SelectBuilder { fields: r.fields, ..self }),
    {
        let mut s = self;
        s.clear_implicit_star();
        s.fields.push(SelectField::Expr { expr, alias: Some(alias) });
        s
    }

    /// Projects `count()` under an alias.
    pub fn count_all_as(self, alias: &'static str) -> (r: Self)
        ensures
            r.fields@ == without_implicit_star(self.fields@).push(SelectField::CountAll { alias }),
            r == (SelectBuilder { fields: r.fields, ..self }),
    {
        let mut s = self;
        s.clear_implicit_star();
        s.fields.push(SelectField::CountAll { alias });
        s
    }

    /// Projects `count(col)` under an alias.
    pub fn count_col_as<C: IntoSelectColumn>(self, col: C, alias: &'static str) -> (r: Self)
        ensures
            r.fields@ == without_implicit_star(self.fields@).push(SelectField::CountCol { col: col.spec_name(), alias }),
            r == (SelectBuilder { fields: r.fields, ..self }),
    {
        let mut s = self;
        s.clear_implicit_star();
        let c = col.name();
        s.fields.push(SelectField::CountCol { col: c, alias });
        s
    }

    /// Sets the filter (replacing an earlier one).
    pub fn where_(self, expr: Expr) -> (r: Self)
        ensures
            r == (SelectBuilder { filter: Some(expr), ..self }),
    {
        SelectBuilder { filter: Some(expr), ..self }
    }

    /// Appends an ordering.
    pub fn order_by(self, ord: ColumnOrder) -> (r: Self)
        ensures
            r.ordering@ == self.ordering@.push(ord),
            r == (SelectBuilder { ordering: r.ordering, ..self }),
    {
        let mut s = self;
        s.ordering.push(ord);
        s
    }

    /// Sets the row limit.
    pub fn limit(self, n: u64) -> (r: Self)
        ensures
            r == (SelectBuilder { limit: Some(n), ..self }),
    {
        SelectBuilder { limit: Some(n), ..self }
    }

    /// Groups by a column.
    pub fn group_by<C: IntoSelectColumn>(self, col: C) -> (r: Self)
        ensures
            r.group_by@ == self.group_by@.push(GroupBySpec::Column(col.spec_name())),
            r == (SelectBuilder { group_by: r.group_by, ..self }),
    {
        let mut s = self;
        let c = col.name();
        s.group_by.push(GroupBySpec::Column(c));
        s
    }

    /// Groups by a raw expression.
    pub fn group_by_expr(self, expr: String) -> (r: Self)
        ensures
            r.group_by@ == self.group_by@.push(GroupBySpec::Expr(expr)),
            r == (SelectBuilder { group_by: r.group_by, ..self }),
    {
        let mut s = self;
        s.group_by.push(GroupBySpec::Expr(expr));
        s
    }

    /// Requests row-level DISTINCT. DISTINCT may be given once.
    pub fn distinct(self) -> (r: Self)
        requires
            self.distinct is None,
        ensures
            r == (SelectBuilder { distinct: Some(Distinct::All), ..self }),
    {
        SelectBuilder { distinct: Some(Distinct::All), ..self }
    }

    /// Requests DISTINCT on the given (non-empty) list of columns. DISTINCT may be given once.
    pub fn distinct_on<C: IntoSelectColumn>(self, cols: &[C]) -> (r: Self)
        requires
            self.distinct is None,
            cols@.len() > 0,
        ensures
            r.distinct matches Some(Distinct::On(names)) && names@ == cols@.map_values(|c: C| c.spec_name()),
            r == (SelectBuilder { distinct: r.distinct, ..self }),
    {
        let mut names: Vec<&'static str> = Vec::new();
        let mut i: usize = 0;
        while i < cols.len()
            invariant
                0 <= i <= cols@.len(),
                names@.len() == i,
                forall|j: int| 0 <= j < i ==> names@[j] == (#[trigger] cols@[j]).spec_name(),
            decreases cols@.len() - i,
        {
            let n = cols[i].name();
            names.push(n);
            i += 1;
        }
        assert(names@ =~= cols@.map_values(|c: C| c.spec_name()));
        SelectBuilder { distinct: Some(Distinct::On(names)), ..self }
    }

    /// The `SELECT` query this builder describes. The table must have been set with `from`.
    pub fn into_query(self) -> (r: Query)
        requires
            self.table is Some,
        ensures
            r.binds@.len() == 0,
            r.stmt matches Stmt::Select(sel) && sel.table == self.table.unwrap() && sel.record_id
                == self.record_id && sel.fields == self.fields && sel.filter == spec_filter(self.filter)
                && sel.order_by@ == self.ordering@.map_values(|o: ColumnOrder| spec_order_key(o))
                && sel.limit == self.limit && sel.group_by == self.group_by && sel.traversal
                == self.traversal && sel.distinct == self.distinct,
    {
        let table = self.table.unwrap();
        let filter = lower_filter(self.filter);
        let order_by = lower_orders(self.ordering);
        Query::new(
            Stmt::Select(
                Select {
                    table,
                    record_id: self.record_id,
                    fields: self.fields,
                    filter,
                    order_by,
                    limit: self.limit,
                    group_by: self.group_by,
                    traversal: self.traversal,
                    distinct: self.distinct,
                },
            ),
        )
    }
}

/// Edge-aware select: a select builder whose query also carries the edge type's endpoint
/// field names (bound as `__jxn_edge_src` / `__jxn_edge_tgt`).
pub struct EdgeSelectBuilder<E: Edge> {
    pub inner: SelectBuilder<E>,
    pub _p: PhantomData<E>,
}

/// An edge select builder with the implicit `*` projection.
pub fn select_edge<E: Edge>(_all: All) -> (r: EdgeSelectBuilder<E>)
    ensures
        r.inner.table is None,
        r.inner.fields@.len() == 1,
        r.inner.fields@[0] is Star,
        r.inner.filter is None,
        r.inner.ordering@.len() == 0,
        r.inner.limit is None,
        r.inner.group_by@.len() == 0,
        r.inner.record_id is None,
        r.inner.traversal@.len() == 0,
        r.inner.distinct is None,
{
    EdgeSelectBuilder { inner: select::<E>(_all), _p: PhantomData }
}

impl<E: Edge> EdgeSelectBuilder<E> {
    pub fn from(self, table: impl IntoTableName) -> (r: Self)
        ensures
            r.inner == (SelectBuilder { table: Some(table.spec_table_name()), ..self.inner }),
    {
        EdgeSelectBuilder { inner: self.inner.from(table), _p: PhantomData }
    }

    pub fn where_(self, expr: Expr) -> (r: Self)
        ensures
            r.inner == (SelectBuilder { filter: Some(expr), ..self.inner }),
    {
        EdgeSelectBuilder { inner: self.inner.where_(expr), _p: PhantomData }
    }

    pub fn order_by(self, ord: ColumnOrder) -> (r: Self)
        ensures
            r.inner.ordering@ == self.inner.ordering@.push(ord),
            r.inner == (SelectBuilder { ordering: r.inner.ordering, ..self.inner }),
    {
        EdgeSelectBuilder { inner: self.inner.order_by(ord), _p: PhantomData }
    }

    pub fn limit(self, n: u64) -> (r: Self)
        ensures
            r.inner == (SelectBuilder { limit: Some(n), ..self.inner }),
    {
        EdgeSelectBuilder { inner: self.inner.limit(n), _p: PhantomData }
    }

    pub fn columns<C: IntoSelectColumn>(self, cols: &[C]) -> (r: Self)
        ensures
            r.inner.fields@ == without_implicit_star(self.inner.fields@) + column_fields(cols@),
            r.inner == (SelectBuilder { fields: r.inner.fields, ..self.inner }),
    {
        EdgeSelectBuilder { inner: self.inner.columns(cols), _p: PhantomData }
    }

    pub fn star(self) -> (r: Self)
        ensures
            r.inner.fields@ == if self.inner.fields@.len() == 1 && self.inner.fields@[0] is Star {
                self.inner.fields@
            } else {
                self.inner.fields@.push(SelectField::Star)
            },
            r.inner == (SelectBuilder { fields: r.inner.fields, ..self.inner }),
    {
        EdgeSelectBuilder { inner: self.inner.star(), _p: PhantomData }
    }

    pub fn record_id(self, id: String) -> (r: Self)
        ensures
            r.inner == (SelectBuilder { record_id: Some(id), ..self.inner }),
    {
        EdgeSelectBuilder { inner: self.inner.record_id(id), _p: PhantomData }
    }

    pub fn forward<EE: Edge, N: Node>(self) -> (r: Self)
        ensures
            r.inner.traversal@ == self.inner.traversal@.push(TraversalSeg { edge: EE::TABLE, dir: TraversalDir::Out, node: Some(N::TABLE) }),
            r.inner == (SelectBuilder { traversal: r.inner.traversal, ..self.inner }),
    {
        EdgeSelectBuilder { inner: self.inner.forward::<EE, N>(), _p: PhantomData }
    }

    pub fn backward<EE: Edge, N: Node>(self) -> (r: Self)
        ensures
            r.inner.traversal@ == self.inner.traversal@.push(TraversalSeg { edge: EE::TABLE, dir: TraversalDir::In, node: Some(N::TABLE) }),
            r.inner == (SelectBuilder { traversal: r.inner.traversal, ..self.inner }),
    {
        EdgeSelectBuilder { inner: self.inner.backward::<EE, N>(), _p: PhantomData }
    }

    pub fn project_path(self) -> (r: Self)
        ensures
            self.inner.traversal@.len() == 0 ==> r.inner == self.inner,
            self.inner.traversal@.len() > 0 ==> {
                &&& r.inner.traversal@.len() == 0
                &&& r.inner.fields@.len() == self.inner.fields@.len() + 1
                &&& r.inner.fields@.take(self.inner.fields@.len() as int) == self.inner.fields@
                &&& r.inner.fields@.last() matches SelectField::Expr { expr, alias }
                &&& expr@ == path_text(self.inner.traversal@)
                &&& alias is None
            },
    {
        EdgeSelectBuilder { inner: self.inner.project_path(), _p: PhantomData }
    }

    /// The query: the inner select, with the edge's source and target field names bound
    /// as `__jxn_edge_src` and `__jxn_edge_tgt`. The table must have been set.
    pub fn into_query(self) -> (r: Query)
        requires
            self.inner.table is Some,
        ensures
            r.stmt matches Stmt::Select(sel) && sel.table == self.inner.table.unwrap() && sel.record_id
                == self.inner.record_id && sel.fields == self.inner.fields && sel.filter == spec_filter(self.inner.filter)
                && sel.order_by@ == self.inner.ordering@.map_values(|o: ColumnOrder| spec_order_key(o))
                && sel.limit == self.inner.limit && sel.group_by == self.inner.group_by && sel.traversal
                == self.inner.traversal && sel.distinct == self.inner.distinct,
            r.binds@.len() == 2,
            r.binds@[0].0@ == "__jxn_edge_src"@,
            r.binds@[0].1 == json_of_string(E::SOURCE_FIELD_NAME@),
            r.binds@[1].0@ == "__jxn_edge_tgt"@,
            r.binds@[1].1 == json_of_string(E::TARGET_FIELD_NAME@),
    {
        let q = self.inner.into_query();
        let src_key = owned("__jxn_edge_src");
        let tgt_key = owned("__jxn_edge_tgt");
        let q = q.bind(src_key, json_string(owned(E::SOURCE_FIELD_NAME)));
        proof {
            reveal(Seq::filter);
            reveal_strlit("__jxn_edge_src");
            reveal_strlit("__jxn_edge_tgt");
            assert(binds_without(Seq::<(String, serde_json::Value)>::empty(), "__jxn_edge_src"@) =~= Seq::<(String, serde_json::Value)>::empty());
        }
        let q = q.bind(tgt_key, json_string(owned(E::TARGET_FIELD_NAME)));
        proof {
            let b = q.binds@;
            assert("__jxn_edge_src"@ != "__jxn_edge_tgt"@) by {
                assert("__jxn_edge_src"@[12] != "__jxn_edge_tgt"@[12]);
            }
        }
        q
    }
}

} // verus!
