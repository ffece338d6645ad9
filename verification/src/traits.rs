//! The traits that model types implement: nodes, edges, insertable records.
use vstd::prelude::*;
use crate::schema::{EdgeTable, Table};

verus! {

/// Exposes a model's table name. Implemented for every node and edge type.
pub trait HasTableName: Sized {
    /// The static table name associated with this entity.
    fn table_name() -> &'static str;
}

/// A node (entity record) type stored in table `TABLE`.
pub trait Node: HasTableName {
    const TABLE: &'static str;

    type Schema;

    /// The table handle of this node type.
    fn table() -> (r: Table<Self>)
        ensures
            r.name == Self::TABLE,
    {
        Table::new(Self::TABLE)
    }

    fn schema() -> Self::Schema;

    /// The node's table name.
    fn table_name() -> &'static str {
        Self::TABLE
    }
}

/// An edge (relationship) type stored in table `TABLE`, from `From` nodes to `To` nodes.
pub trait Edge: HasTableName {
    const TABLE: &'static str;

    type Schema;

    type From: Node;

    type To: Node;

    /// Name of the struct field holding the source endpoint.
    const SOURCE_FIELD_NAME: &'static str = "in";

    /// Name of the struct field holding the target endpoint.
    const TARGET_FIELD_NAME: &'static str = "out";

    /// The table handle of this edge type.
    fn table() -> (r: EdgeTable<Self, (), ()>)
        ensures
            r.name == Self::TABLE,
    {
        EdgeTable::new(Self::TABLE)
    }

    fn schema() -> Self::Schema;

    /// The edge's table name.
    fn table_name() -> &'static str {
        Self::TABLE
    }
}

/// Types that can be inserted through `insert`.
pub trait Insertable: Sized {
    /// Table name target for insertion.
    fn table_name() -> &'static str;

    /// For edges, the (source field name, target field name); nodes give `None`.
    fn endpoint_fields() -> (r: Option<(&'static str, &'static str)>)
        default_ensures
            r is None,
    {
        None
    }
}

} // verus!
