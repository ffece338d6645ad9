//! Schema operation primitives used for migrations and diff generation.
//! These are backend-agnostic operations that adapters compile into
//! engine-specific DDL or graph schema statements.
use vstd::prelude::*;
use crate::text::owned;

verus! {

/// Column type of a field in a schema operation.
#[derive(Debug, Clone)]
pub enum FieldType {
    String,
    Int64,
    Float64,
    Bool,
    DateTime,
    Uuid,
    Json,
    Other(String),
}

/// Mathematical value of a [`FieldType`].
pub enum FieldTypeView {
    String,
    Int64,
    Float64,
    Bool,
    DateTime,
    Uuid,
    Json,
    Other(Seq<char>),
}

impl View for FieldType {
    type V = FieldTypeView;

    open spec fn view(&self) -> FieldTypeView {
        match self {
            FieldType::String => FieldTypeView::String,
            FieldType::Int64 => FieldTypeView::Int64,
            FieldType::Float64 => FieldTypeView::Float64,
            FieldType::Bool => FieldTypeView::Bool,
            FieldType::DateTime => FieldTypeView::DateTime,
            FieldType::Uuid => FieldTypeView::Uuid,
            FieldType::Json => FieldTypeView::Json,
            FieldType::Other(s) => FieldTypeView::Other(s@),
        }
    }
}

impl FieldType {
    /// A copy with the same value.
    pub fn duplicate(&self) -> (r: FieldType)
        ensures
            r@ == self@,
    {
        match self {
            FieldType::String => FieldType::String,
            FieldType::Int64 => FieldType::Int64,
            FieldType::Float64 => FieldType::Float64,
            FieldType::Bool => FieldType::Bool,
            FieldType::DateTime => FieldType::DateTime,
            FieldType::Uuid => FieldType::Uuid,
            FieldType::Json => FieldType::Json,
            FieldType::Other(s) => FieldType::Other(s.clone()),
        }
    }
}

/// A field definition inside a schema operation.
#[derive(Debug, Clone)]
pub struct FieldDef {
    pub name: String,
    pub ty: FieldType,
    pub primary: bool,
}

/// Mathematical value of a [`FieldDef`].
pub struct FieldDefView {
    pub name: Seq<char>,
    pub ty: FieldTypeView,
    pub primary: bool,
}

impl View for FieldDef {
    type V = FieldDefView;

    open spec fn view(&self) -> FieldDefView {
        FieldDefView { name: self.name@, ty: self.ty@, primary: self.primary }
    }
}

/// The views of a list of field definitions.
pub open spec fn field_defs_view(v: Seq<FieldDef>) -> Seq<FieldDefView> {
    v.map_values(|f: FieldDef| f@)
}

/// A backend-agnostic schema change.
#[derive(Debug, Clone)]
pub enum SchemaOp {
    CreateTable { name: String, fields: Vec<FieldDef> },
    DropTable { name: String },
    AddField { table: String, field: FieldDef },
    DropField { table: String, field: String },
    CreateEdge { name: String, from: String, to: String, fields: Vec<FieldDef> },
    DropEdge { name: String },
}

/// Mathematical value of a [`SchemaOp`].
pub enum SchemaOpView {
    CreateTable { name: Seq<char>, fields: Seq<FieldDefView> },
    DropTable { name: Seq<char> },
    AddField { table: Seq<char>, field: FieldDefView },
    DropField { table: Seq<char>, field: Seq<char> },
    CreateEdge { name: Seq<char>, from: Seq<char>, to: Seq<char>, fields: Seq<FieldDefView> },
    DropEdge { name: Seq<char> },
}

impl View for SchemaOp {
    type V = SchemaOpView;

    open spec fn view(&self) -> SchemaOpView {
        match self {
            SchemaOp::CreateTable { name, fields } => SchemaOpView::CreateTable {
                name: name@,
                fields: field_defs_view(fields@),
            },
            SchemaOp::DropTable { name } => SchemaOpView::DropTable { name: name@ },
            SchemaOp::AddField { table, field } => SchemaOpView::AddField {
                table: table@,
                field: field@,
            },
            SchemaOp::DropField { table, field } => SchemaOpView::DropField {
                table: table@,
                field: field@,
            },
            SchemaOp::CreateEdge { name, from, to, fields } => SchemaOpView::CreateEdge {
                name: name@,
                from: from@,
                to: to@,
                fields: field_defs_view(fields@),
            },
            SchemaOp::DropEdge { name } => SchemaOpView::DropEdge { name: name@ },
        }
    }
}

/// The views of a list of schema operations.
pub open spec fn ops_view(v: Seq<SchemaOp>) -> Seq<SchemaOpView> {
    v.map_values(|o: SchemaOp| o@)
}

/// `DropTable` for the named table.
pub fn drop_table_op(name: &str) -> (r: SchemaOp)
    ensures
        r@ == (SchemaOpView::DropTable { name: name@ }),
{
    SchemaOp::DropTable { name: owned(name) }
}

/// `DropEdge` for the named edge.
pub fn drop_edge_op(name: &str) -> (r: SchemaOp)
    ensures
        r@ == (SchemaOpView::DropEdge { name: name@ }),
{
    SchemaOp::DropEdge { name: owned(name) }
}

/// `DropField` of a field of a table.
pub fn drop_field_op(table: &str, field: &str) -> (r: SchemaOp)
    ensures
        r@ == (SchemaOpView::DropField { table: table@, field: field@ }),
{
    SchemaOp::DropField { table: owned(table), field: owned(field) }
}

} // verus!
