//! Graph traversal AST and its type-safe builder.
//!
//! Backend-agnostic structures describing a traversal from a start node set across edges;
//! adapters compile a [`GraphTraversal`] into their native graph query.
use vstd::prelude::*;
use std::marker::PhantomData;
use crate::expr::Expr;
use crate::id::{SimpleId, uuid_hyphenated};
use crate::query::ast::{Query, Stmt};
use crate::text::owned;
use crate::traits::{Edge, Node};

verus! {

/// Direction of an edge traversal relative to the current frontier node.
#[derive(Debug, Clone, Copy, PartialEq, Eq)]
pub enum Direction {
    Out,
    In,
}

/// A single edge reference (table and direction).
#[derive(Debug, Clone, Copy, PartialEq, Eq)]
pub struct EdgeRef {
    pub table: &'static str,
    pub direction: Direction,
}

/// A set of edges traversed together (a union).
#[derive(Debug)]
pub struct EdgeSet {
    pub edges: Vec<EdgeRef>,
}

impl EdgeSet {
    /// The set holding one edge.
    pub fn single(edge: EdgeRef) -> (r: Self)
        ensures
            r.edges@ == seq![edge],
    {
        let mut edges: Vec<EdgeRef> = Vec::new();
        edges.push(edge);
        EdgeSet { edges }
    }

    /// A copy of the set.
    pub fn duplicate(&self) -> (r: Self)
        ensures
            r.edges@ == self.edges@,
    {
        let mut edges: Vec<EdgeRef> = Vec::new();
        let mut i: usize = 0;
        while i < self.edges.len()
            invariant
                0 <= i <= self.edges@.len(),
                edges@ == self.edges@.take(i as int),
            decreases self.edges@.len() - i,
        {
            edges.push(self.edges[i]);
            assert(edges@ =~= self.edges@.take(i + 1));
            i += 1;
        }
        assert(self.edges@.take(self.edges@.len() as int) =~= self.edges@);
        EdgeSet { edges }
    }
}

/// A union of edge types sharing `From` and `To`, traversed outward together.
pub trait EdgeUnion<From: Node, To: Node> {
    /// The edges of the union, in order.
    spec fn spec_edges() -> Seq<EdgeRef>;

    fn to_edges() -> (r: Vec<EdgeRef>)
        ensures
            r@ == Self::spec_edges(),
    ;
}

/// The outward reference to an edge table.
pub open spec fn out_ref(table: &'static str) -> EdgeRef {
    EdgeRef { table, direction: Direction::Out }
}

impl<From: Node, To: Node, E1> EdgeUnion<From, To> for (E1,) where E1: Edge<From = From, To = To> {
    open spec fn spec_edges() -> Seq<EdgeRef> {
        seq![out_ref(E1::TABLE)]
    }

    fn to_edges() -> (r: Vec<EdgeRef>) {
        let mut v: Vec<EdgeRef> = Vec::new();
        v.push(EdgeRef { table: E1::TABLE, direction: Direction::Out });
        v
    }
}

impl<From: Node, To: Node, E1, E2> EdgeUnion<From, To> for (E1, E2) where
    E1: Edge<From = From, To = To>,
    E2: Edge<From = From, To = To>,
 {
    open spec fn spec_edges() -> Seq<EdgeRef> {
        seq![out_ref(E1::TABLE), out_ref(E2::TABLE)]
    }

    fn to_edges() -> (r: Vec<EdgeRef>) {
        let mut v: Vec<EdgeRef> = Vec::new();
        v.push(EdgeRef { table: E1::TABLE, direction: Direction::Out });
        v.push(EdgeRef { table: E2::TABLE, direction: Direction::Out });
        v
    }
}

impl<From: Node, To: Node, E1, E2, E3> EdgeUnion<From, To> for (E1, E2, E3) where
    E1: Edge<From = From, To = To>,
    E2: Edge<From = From, To = To>,
    E3: Edge<From = From, To = To>,
 {
    open spec fn spec_edges() -> Seq<EdgeRef> {
        seq![out_ref(E1::TABLE), out_ref(E2::TABLE), out_ref(E3::TABLE)]
    }

    fn to_edges() -> (r: Vec<EdgeRef>) {
        let mut v: Vec<EdgeRef> = Vec::new();
        v.push(EdgeRef { table: E1::TABLE, direction: Direction::Out });
        v.push(EdgeRef { table: E2::TABLE, direction: Direction::Out });
        v.push(EdgeRef { table: E3::TABLE, direction: Direction::Out });
        v
    }
}

impl<From: Node, To: Node, E1, E2, E3, E4> EdgeUnion<From, To> for (E1, E2, E3, E4) where
    E1: Edge<From = From, To = To>,
    E2: Edge<From = From, To = To>,
    E3: Edge<From = From, To = To>,
    E4: Edge<From = From, To = To>,
 {
    open spec fn spec_edges() -> Seq<EdgeRef> {
        seq![out_ref(E1::TABLE), out_ref(E2::TABLE), out_ref(E3::TABLE), out_ref(E4::TABLE)]
    }

    fn to_edges() -> (r: Vec<EdgeRef>) {
        let mut v: Vec<EdgeRef> = Vec::new();
        v.push(EdgeRef { table: E1::TABLE, direction: Direction::Out });
        v.push(EdgeRef { table: E2::TABLE, direction: Direction::Out });
        v.push(EdgeRef { table: E3::TABLE, direction: Direction::Out });
        v.push(EdgeRef { table: E4::TABLE, direction: Direction::Out });
        v
    }
}

impl<From: Node, To: Node, E1, E2, E3, E4, E5> EdgeUnion<From, To> for (E1, E2, E3, E4, E5) where
    E1: Edge<From = From, To = To>,
    E2: Edge<From = From, To = To>,
    E3: Edge<From = From, To = To>,
    E4: Edge<From = From, To = To>,
    E5: Edge<From = From, To = To>,
 {
    open spec fn spec_edges() -> Seq<EdgeRef> {
        seq![
            out_ref(E1::TABLE),
            out_ref(E2::TABLE),
            out_ref(E3::TABLE),
            out_ref(E4::TABLE),
            out_ref(E5::TABLE),
        ]
    }

    fn to_edges() -> (r: Vec<EdgeRef>) {
        let mut v: Vec<EdgeRef> = Vec::new();
        v.push(EdgeRef { table: E1::TABLE, direction: Direction::Out });
        v.push(EdgeRef { table: E2::TABLE, direction: Direction::Out });
        v.push(EdgeRef { table: E3::TABLE, direction: Direction::Out });
        v.push(EdgeRef { table: E4::TABLE, direction: Direction::Out });
        v.push(EdgeRef { table: E5::TABLE, direction: Direction::Out });
        v
    }
}

/// Filter applied at a step, on the edge or on the node.
#[derive(Debug)]
pub enum StepFilter {
    Node(Expr),
    Edge(Expr),
}

impl StepFilter {
    /// A copy of the filter.
    pub fn duplicate(&self) -> (r: Self)
        ensures
            r == *self,
    {
        match self {
            StepFilter::Node(e) => StepFilter::Node(e.duplicate()),
            StepFilter::Edge(e) => StepFilter::Edge(e.duplicate()),
        }
    }
}

/// One traversal step from the current node frontier across one edge set.
#[derive(Debug)]
pub struct TraversalStep {
    pub edge_set: EdgeSet,
    pub filters: Vec<StepFilter>,
    pub node_alias: Option<String>,
    /// Destination node table of the step (`E::To` outward, `E::From` inward).
    pub dest_node_table: Option<&'static str>,
    /// Number of additional optional occurrences beyond those materialized.
    pub repeat_extra: Option<usize>,
}

/// Two steps hold the same content.
pub open spec fn same_step(a: TraversalStep, b: TraversalStep) -> bool {
    &&& a.edge_set.edges@ == b.edge_set.edges@
    &&& a.filters@ == b.filters@
    &&& a.node_alias == b.node_alias
    &&& a.dest_node_table == b.dest_node_table
    &&& a.repeat_extra == b.repeat_extra
}

impl TraversalStep {
    /// A step across `edge_set` with no filters, alias or repetition.
    pub fn new(edge_set: EdgeSet, dest_node_table: Option<&'static str>) -> (r: Self)
        ensures
            r.edge_set == edge_set,
            r.filters@.len() == 0,
            r.node_alias is None,
            r.dest_node_table == dest_node_table,
            r.repeat_extra is None,
    {
        TraversalStep { edge_set, filters: Vec::new(), node_alias: None, dest_node_table, repeat_extra: None }
    }

    /// A copy of the step.
    pub fn duplicate(&self) -> (r: Self)
        ensures
            same_step(r, *self),
    {
        let mut filters: Vec<StepFilter> = Vec::new();
        let mut i: usize = 0;
        while i < self.filters.len()
            invariant
                0 <= i <= self.filters@.len(),
                filters@ == self.filters@.take(i as int),
            decreases self.filters@.len() - i,
        {
            filters.push(self.filters[i].duplicate());
            assert(filters@ =~= self.filters@.take(i + 1));
            i += 1;
        }
        assert(self.filters@.take(self.filters@.len() as int) =~= self.filters@);
        let alias = match &self.node_alias {
            Some(a) => Some(a.clone()),
            None => None,
        };
        TraversalStep {
            edge_set: self.edge_set.duplicate(),
            filters,
            node_alias: alias,
            dest_node_table: self.dest_node_table,
            repeat_extra: self.repeat_extra,
        }
    }
}

/// Start anchor: the table, and optionally the record id, the traversal originates from.
#[derive(Debug)]
pub struct StartAnchor {
    pub table: &'static str,
    pub id: Option<String>,
}

/// What a traversal returns.
#[derive(Debug)]
pub enum ReturnMode {
    Nodes,
    Project(&'static str),
    /// A list of fields of the terminal nodes.
    ProjectFields(Vec<&'static str>),
    /// The edge documents of the final step.
    Edges,
    /// The node (and edge) id sequences of the paths.
    Path,
}

/// A path result: node record ids in traversal order, and the edge ids between them.
#[derive(Debug)]
pub struct PathSegment {
    pub nodes: Vec<String>,
    pub edges: Option<Vec<String>>,
}

/// High-level traversal AST.
#[derive(Debug)]
pub struct GraphTraversal {
    pub start: StartAnchor,
    pub steps: Vec<TraversalStep>,
    pub return_mode: ReturnMode,
}

/// Two return modes are the same.
pub open spec fn same_mode(a: ReturnMode, b: ReturnMode) -> bool {
    match (a, b) {
        (ReturnMode::Nodes, ReturnMode::Nodes) => true,
        (ReturnMode::Project(x), ReturnMode::Project(y)) => x == y,
        (ReturnMode::ProjectFields(x), ReturnMode::ProjectFields(y)) => x@ == y@,
        (ReturnMode::Edges, ReturnMode::Edges) => true,
        (ReturnMode::Path, ReturnMode::Path) => true,
        _ => false,
    }
}

/// Two traversals hold the same content.
pub open spec fn same_traversal(a: GraphTraversal, b: GraphTraversal) -> bool {
    &&& a.start == b.start
    &&& a.steps@.len() == b.steps@.len()
    &&& forall|i: int| 0 <= i < a.steps@.len() ==> same_step(#[trigger] a.steps@[i], b.steps@[i])
    &&& same_mode(a.return_mode, b.return_mode)
}

impl ReturnMode {
    /// A copy of the mode.
    pub fn duplicate(&self) -> (r: Self)
        ensures
            same_mode(r, *self),
    {
        match self {
            ReturnMode::Nodes => ReturnMode::Nodes,
            ReturnMode::Project(k) => ReturnMode::Project(*k),
            ReturnMode::ProjectFields(fs) => {
                let mut out: Vec<&'static str> = Vec::new();
                let mut i: usize = 0;
                while i < fs.len()
                    invariant
                        0 <= i <= fs@.len(),
                        out@ == fs@.take(i as int),
                    decreases fs@.len() - i,
                {
                    out.push(fs[i]);
                    assert(out@ =~= fs@.take(i + 1));
                    i += 1;
                }
                assert(fs@.take(fs@.len() as int) =~= fs@);
                ReturnMode::ProjectFields(out)
            },
            ReturnMode::Edges => ReturnMode::Edges,
            ReturnMode::Path => ReturnMode::Path,
        }
    }
}

impl GraphTraversal {
    /// A traversal with no steps, returning nodes.
    pub fn new(start: StartAnchor) -> (r: Self)
        ensures
            r.start == start,
            r.steps@.len() == 0,
            r.return_mode is Nodes,
    {
        GraphTraversal { start, steps: Vec::new(), return_mode: ReturnMode::Nodes }
    }

    /// A copy of the traversal.
    pub fn duplicate(&self) -> (r: Self)
        ensures
            same_traversal(r, *self),
    {
        let id = match &self.start.id {
            Some(s) => Some(s.clone()),
            None => None,
        };
        let mut steps: Vec<TraversalStep> = Vec::new();
        let mut i: usize = 0;
        while i < self.steps.len()
            invariant
                0 <= i <= self.steps@.len(),
                steps@.len() == i,
                forall|k: int| 0 <= k < i ==> same_step(#[trigger] steps@[k], self.steps@[k]),
            decreases self.steps@.len() - i,
        {
            steps.push(self.steps[i].duplicate());
            i += 1;
        }
        GraphTraversal {
            start: StartAnchor { table: self.start.table, id },
            steps,
            return_mode: self.return_mode.duplicate(),
        }
    }
}

/// Type-safe traversal builder, from `Root` nodes currently at `Cur` nodes.
pub struct Path<Root: Node, Cur: Node> {
    pub ast: GraphTraversal,
    pub _p: PhantomData<(Root, Cur)>,
}

/// Begins a traversal from all records of a node type.
pub fn start<N: Node>() -> (r: Path<N, N>)
    ensures
        r.ast.start.table == N::TABLE,
        r.ast.start.id is None,
        r.ast.steps@.len() == 0,
        r.ast.return_mode is Nodes,
{
    Path { ast: GraphTraversal::new(StartAnchor { table: N::TABLE, id: None }), _p: PhantomData }
}

/// Begins a traversal from one record: the anchor id is `table:uuid`.
pub fn start_at<N: Node>(id: SimpleId<N>) -> (r: Path<N, N>)
    ensures
        r.ast.start.table == N::TABLE,
        r.ast.start.id matches Some(s) && s@ == N::TABLE@ + seq![':'] + uuid_hyphenated(id.value),
        r.ast.steps@.len() == 0,
        r.ast.return_mode is Nodes,
{
    let full = id.to_record_string(N::TABLE);
    Path { ast: GraphTraversal::new(StartAnchor { table: N::TABLE, id: Some(full) }), _p: PhantomData }
}

/// How many times `repeat(min, max)` materialises the last step: `min`, and at least once
/// (the step is already on the path).
pub open spec fn repeat_count(min: usize) -> int {
    if min <= 1 { 1 } else { min as int }
}

/// The steps after `repeat(min, max)` on a non-empty path: the last step occurs
/// `repeat_count(min)` times, and when `max` exceeds that count the final occurrence records
/// the difference as optional extra occurrences, so the step may occur up to `max` times.
pub open spec fn repeated_steps(steps: Seq<TraversalStep>, min: usize, max: usize, r: Seq<TraversalStep>) -> bool {
    if steps.len() == 0 {
        r == steps
    } else {
        let last = steps.last();
        let m = repeat_count(min);
        &&& r.len() == steps.len() + m - 1
        &&& forall|j: int| 0 <= j < steps.len() - 1 ==> r[j] == steps[j]
        &&& forall|j: int| steps.len() - 1 <= j < r.len() - 1 ==> same_step(#[trigger] r[j], last)
        &&& r.last().edge_set.edges@ == last.edge_set.edges@
        &&& r.last().filters@ == last.filters@
        &&& r.last().node_alias == last.node_alias
        &&& r.last().dest_node_table == last.dest_node_table
        &&& r.last().repeat_extra == if max > m {
            Some((max - m) as usize)
        } else {
            last.repeat_extra
        }
    }
}

impl<R: Node, C: Node> Path<R, C> {
    /// Traverses forward along an edge whose `From` is the current node type.
    pub fn forward<E: Edge<From = C>>(self) -> (r: Path<R, E::To>)
        ensures
            r.ast.start == self.ast.start,
            r.ast.return_mode == self.ast.return_mode,
            r.ast.steps@.len() == self.ast.steps@.len() + 1,
            r.ast.steps@.drop_last() == self.ast.steps@,
            r.ast.steps@.last().edge_set.edges@ == seq![EdgeRef { table: E::TABLE, direction: Direction::Out }],
            r.ast.steps@.last().dest_node_table == Some(<E::To as Node>::TABLE),
            r.ast.steps@.last().filters@.len() == 0,
            r.ast.steps@.last().node_alias is None,
            r.ast.steps@.last().repeat_extra is None,
    {
        let step = TraversalStep::new(
            EdgeSet::single(EdgeRef { table: E::TABLE, direction: Direction::Out }),
            Some(<E::To as Node>::TABLE),
        );
        let mut ast = self.ast;
        ast.steps.push(step);
        Path { ast, _p: PhantomData }
    }

    /// Traverses backward along an edge whose `To` is the current node type.
    pub fn backward<E: Edge<To = C>>(self) -> (r: Path<R, E::From>)
        ensures
            r.ast.start == self.ast.start,
            r.ast.return_mode == self.ast.return_mode,
            r.ast.steps@.len() == self.ast.steps@.len() + 1,
            r.ast.steps@.drop_last() == self.ast.steps@,
            r.ast.steps@.last().edge_set.edges@ == seq![EdgeRef { table: E::TABLE, direction: Direction::In }],
            r.ast.steps@.last().dest_node_table == Some(<E::From as Node>::TABLE),
            r.ast.steps@.last().filters@.len() == 0,
            r.ast.steps@.last().node_alias is None,
            r.ast.steps@.last().repeat_extra is None,
    {
        let step = TraversalStep::new(
            EdgeSet::single(EdgeRef { table: E::TABLE, direction: Direction::In }),
            Some(<E::From as Node>::TABLE),
        );
        let mut ast = self.ast;
        ast.steps.push(step);
        Path { ast, _p: PhantomData }
    }

    /// Repeats the last step so that it may occur `min..=max` times: the step is materialised
    /// `min` times (at least once), and when `max` is larger the final occurrence records
    /// how many more occurrences are allowed. A path without steps is left unchanged.
    pub fn repeat(self, min: usize, max: usize) -> (r: Self)
        ensures
            r.ast.start == self.ast.start,
            r.ast.return_mode == self.ast.return_mode,
            repeated_steps(self.ast.steps@, min, max, r.ast.steps@),
    {
        if self.ast.steps.len() == 0 {
            return self;
        }
        let m: usize = if min <= 1 { 1 } else { min };
        let mut ast = self.ast;
        let ghost orig = ast.steps@;
        let ghost st = ast.start;
        let ghost rm = ast.return_mode;
        let n = ast.steps.len();
        let last = ast.steps[n - 1].duplicate();
        let mut k: usize = 1;
        while k < m
            invariant
                1 <= k <= m,
                m == repeat_count(min),
                ast.start == st,
                ast.return_mode == rm,
                n == orig.len(),
                n > 0,
                same_step(last, orig.last()),
                ast.steps@.len() == orig.len() + k - 1,
                forall|j: int| 0 <= j < orig.len() ==> ast.steps@[j] == orig[j],
                forall|j: int| orig.len() <= j < ast.steps@.len() ==> same_step(#[trigger] ast.steps@[j], orig.last()),
            decreases m - k,
        {
            ast.steps.push(last.duplicate());
            k += 1;
        }
        if max > m {
            let len = ast.steps.len();
            let mut tail = ast.steps.pop().unwrap();
            tail.repeat_extra = Some(max - m);
            ast.steps.push(tail);
            assert(ast.steps@.len() == len);
        }
        assert forall|j: int| orig.len() - 1 <= j < ast.steps@.len() - 1 implies same_step(#[trigger] ast.steps@[j], orig.last()) by {
            if j == orig.len() - 1 {
                assert(ast.steps@[j] == orig[j]);
            }
        }
        Path { ast, _p: PhantomData }
    }

    /// Traverses outward across a union of edge tables sharing `From` and `To`.
    pub fn out_union<U, T>(self) -> (r: Path<R, T>)
        where
            T: Node,
            U: EdgeUnion<C, T>,
        ensures
            r.ast.start == self.ast.start,
            r.ast.return_mode == self.ast.return_mode,
            r.ast.steps@.len() == self.ast.steps@.len() + 1,
            r.ast.steps@.drop_last() == self.ast.steps@,
            r.ast.steps@.last().edge_set.edges@ == U::spec_edges(),
            r.ast.steps@.last().dest_node_table == Some(T::TABLE),
            r.ast.steps@.last().filters@.len() == 0,
            r.ast.steps@.last().node_alias is None,
            r.ast.steps@.last().repeat_extra is None,
    {
        let edges = U::to_edges();
        let step = TraversalStep::new(EdgeSet { edges }, Some(T::TABLE));
        let mut ast = self.ast;
        ast.steps.push(step);
        Path { ast, _p: PhantomData }
    }

    /// Names the current frontier node (on the last step; no step, no change).
    pub fn alias(self, alias: &str) -> (r: Self)
        ensures
            r.ast.start == self.ast.start,
            r.ast.return_mode == self.ast.return_mode,
            r.ast.steps@.len() == self.ast.steps@.len(),
            self.ast.steps@.len() == 0 ==> r.ast.steps@ == self.ast.steps@,
            self.ast.steps@.len() > 0 ==> {
                &&& r.ast.steps@.drop_last() == self.ast.steps@.drop_last()
                &&& r.ast.steps@.last() == (TraversalStep {
                    node_alias: r.ast.steps@.last().node_alias,
                    ..self.ast.steps@.last()
                })
                &&& r.ast.steps@.last().node_alias matches Some(a) && a@ == alias@
            },
    {
        let mut ast = self.ast;
        if ast.steps.len() > 0 {
            let mut last = ast.steps.pop().unwrap();
            last.node_alias = Some(owned(alias));
            ast.steps.push(last);
        }
        Path { ast, _p: PhantomData }
    }

    /// Adds a node filter on the current frontier (the last step; no step, no change).
    pub fn filter_node(self, f: Expr) -> (r: Self)
        ensures
            r.ast.start == self.ast.start,
            r.ast.return_mode == self.ast.return_mode,
            r.ast.steps@.len() == self.ast.steps@.len(),
            self.ast.steps@.len() == 0 ==> r.ast.steps@ == self.ast.steps@,
            self.ast.steps@.len() > 0 ==> {
                &&& r.ast.steps@.drop_last() == self.ast.steps@.drop_last()
                &&& r.ast.steps@.last().filters@ == self.ast.steps@.last().filters@.push(StepFilter::Node(f))
                &&& r.ast.steps@.last() == (TraversalStep {
                    filters: r.ast.steps@.last().filters,
                    ..self.ast.steps@.last()
                })
            },
    {
        let mut ast = self.ast;
        if ast.steps.len() > 0 {
            let mut last = ast.steps.pop().unwrap();
            last.filters.push(StepFilter::Node(f));
            ast.steps.push(last);
        }
        Path { ast, _p: PhantomData }
    }

    /// Adds an edge filter on the most recently traversed edge (no step, no change).
    pub fn filter_edge(self, f: Expr) -> (r: Self)
        ensures
            r.ast.start == self.ast.start,
            r.ast.return_mode == self.ast.return_mode,
            r.ast.steps@.len() == self.ast.steps@.len(),
            self.ast.steps@.len() == 0 ==> r.ast.steps@ == self.ast.steps@,
            self.ast.steps@.len() > 0 ==> {
                &&& r.ast.steps@.drop_last() == self.ast.steps@.drop_last()
                &&& r.ast.steps@.last().filters@ == self.ast.steps@.last().filters@.push(StepFilter::Edge(f))
                &&& r.ast.steps@.last() == (TraversalStep {
                    filters: r.ast.steps@.last().filters,
                    ..self.ast.steps@.last()
                })
            },
    {
        let mut ast = self.ast;
        if ast.steps.len() > 0 {
            let mut last = ast.steps.pop().unwrap();
            last.filters.push(StepFilter::Edge(f));
            ast.steps.push(last);
        }
        Path { ast, _p: PhantomData }
    }

    /// Switches to projection into `T`, under the projection key `key` (callers pass the
    /// name of `T`).
    pub fn project<T>(self, key: &'static str) -> (r: GraphQuery<T>)
        ensures
            r.ast.start == self.ast.start,
            r.ast.steps == self.ast.steps,
            r.ast.return_mode == ReturnMode::Project(key),
    {
        let name = key;
        let mut ast = self.ast;
        ast.return_mode = ReturnMode::Project(name);
        GraphQuery { ast, _p: PhantomData }
    }

    /// Projects the given fields of the terminal nodes.
    pub fn project_fields<T>(self, fields: &[&'static str]) -> (r: GraphQuery<T>)
        ensures
            r.ast.start == self.ast.start,
            r.ast.steps == self.ast.steps,
            r.ast.return_mode matches ReturnMode::ProjectFields(v) && v@ == fields@,
    {
        let mut v: Vec<&'static str> = Vec::new();
        let mut i: usize = 0;
        while i < fields.len()
            invariant
                0 <= i <= fields@.len(),
                v@ == fields@.take(i as int),
            decreases fields@.len() - i,
        {
            v.push(fields[i]);
            assert(v@ =~= fields@.take(i + 1));
            i += 1;
        }
        assert(fields@.take(fields@.len() as int) =~= fields@);
        let mut ast = self.ast;
        ast.return_mode = ReturnMode::ProjectFields(v);
        GraphQuery { ast, _p: PhantomData }
    }

    /// Returns the edge documents of the final step instead of the terminal nodes.
    pub fn return_edges<E: Edge<From = C>>(self) -> (r: GraphQuery<E>)
        ensures
            r.ast.start == self.ast.start,
            r.ast.steps == self.ast.steps,
            r.ast.return_mode is Edges,
    {
        let mut ast = self.ast;
        ast.return_mode = ReturnMode::Edges;
        GraphQuery { ast, _p: PhantomData }
    }

    /// Returns path sequences as [`PathSegment`] values.
    pub fn return_path(self) -> (r: GraphQuery<PathSegment>)
        ensures
            r.ast.start == self.ast.start,
            r.ast.steps == self.ast.steps,
            r.ast.return_mode is Path,
    {
        let mut ast = self.ast;
        ast.return_mode = ReturnMode::Path;
        GraphQuery { ast, _p: PhantomData }
    }

    /// The traversal AST built so far.
    pub fn into_traversal(self) -> (r: GraphTraversal)
        ensures
            r == self.ast,
    {
        self.ast
    }

    /// The query returning the current nodes.
    pub fn into_query(self) -> (r: Query)
        ensures
            r.stmt == Stmt::Graph(self.ast),
            r.binds@.len() == 0,
    {
        Query::new(Stmt::Graph(self.ast))
    }
}

/// An executable graph query returning rows of type `T`.
pub struct GraphQuery<T> {
    pub ast: GraphTraversal,
    pub _p: PhantomData<T>,
}

impl<T> GraphQuery<T> {
    /// The query, leaving this graph query in place.
    pub fn as_query_ref(&self) -> (r: Query)
        ensures
            r.stmt matches Stmt::Graph(t) && same_traversal(t, self.ast),
            r.binds@.len() == 0,
    {
        Query::new(Stmt::Graph(self.ast.duplicate()))
    }

    /// The query.
    pub fn into_query(self) -> (r: Query)
        ensures
            r.stmt == Stmt::Graph(self.ast),
            r.binds@.len() == 0,
    {
        Query::new(Stmt::Graph(self.ast))
    }
}

} // verus!
