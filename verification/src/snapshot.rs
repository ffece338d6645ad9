//! The schema snapshot: the node models and edges found in a code base.
use vstd::prelude::*;

verus! {

/// Column type of a scanned field.
#[derive(Debug, Clone)]
pub enum FieldType {
    String,
    Int64,
    Float64,
    Bool,
    DateTime,
    Uuid,
    Json,
    Other(String),
}

/// Mathematical value of a scanned [`FieldType`].
pub enum FieldKind {
    String,
    Int64,
    Float64,
    Bool,
    DateTime,
    Uuid,
    Json,
    Other(Seq<char>),
}

impl View for FieldType {
    type V = FieldKind;

    open spec fn view(&self) -> FieldKind {
        match self {
            FieldType::String => FieldKind::String,
            FieldType::Int64 => FieldKind::Int64,
            FieldType::Float64 => FieldKind::Float64,
            FieldType::Bool => FieldKind::Bool,
            FieldType::DateTime => FieldKind::DateTime,
            FieldType::Uuid => FieldKind::Uuid,
            FieldType::Json => FieldKind::Json,
            FieldType::Other(s) => FieldKind::Other(s@),
        }
    }
}

impl FieldType {
    /// Whether two field types are equal (the derived `==` of the type).
    pub fn same_as(&self, other: &FieldType) -> (r: bool)
        ensures
            r == (self@ == other@),
    {
        match self {
            FieldType::String => match other {
                FieldType::String => true,
                _ => false,
            },
            FieldType::Int64 => matches!(other, FieldType::Int64),
            FieldType::Float64 => matches!(other, FieldType::Float64),
            FieldType::Bool => matches!(other, FieldType::Bool),
            FieldType::DateTime => matches!(other, FieldType::DateTime),
            FieldType::Uuid => matches!(other, FieldType::Uuid),
            FieldType::Json => matches!(other, FieldType::Json),
            FieldType::Other(a) => match other {
                FieldType::Other(b) => crate::text::str_eq(a.as_str(), b.as_str()),
                _ => false,
            },
        }
    }
}

/// A scanned field.
#[derive(Debug, Clone)]
pub struct Field {
    pub name: String,
    pub ty: FieldType,
    pub primary: bool,
}

/// Mathematical value of a [`Field`].
pub struct FieldView {
    pub name: Seq<char>,
    pub ty: FieldKind,
    pub primary: bool,
}

impl View for Field {
    type V = FieldView;

    open spec fn view(&self) -> FieldView {
        FieldView { name: self.name@, ty: self.ty@, primary: self.primary }
    }
}

/// The views of a list of fields.
pub open spec fn fields_view(v: Seq<Field>) -> Seq<FieldView> {
    v.map_values(|f: Field| f@)
}

/// A node model: a table and its fields.
#[derive(Debug, Clone)]
pub struct Model {
    pub table: String,
    pub fields: Vec<Field>,
}

/// Mathematical value of a [`Model`].
pub struct ModelView {
    pub table: Seq<char>,
    pub fields: Seq<FieldView>,
}

impl View for Model {
    type V = ModelView;

    open spec fn view(&self) -> ModelView {
        ModelView { table: self.table@, fields: fields_view(self.fields@) }
    }
}

/// An edge: a relation table between two node types, with its fields.
#[derive(Debug, Clone)]
pub struct Edge {
    pub table: String,
    pub from: String,
    pub to: String,
    pub fields: Vec<Field>,
}

/// Mathematical value of an [`Edge`].
pub struct EdgeView {
    pub table: Seq<char>,
    pub from: Seq<char>,
    pub to: Seq<char>,
    pub fields: Seq<FieldView>,
}

impl View for Edge {
    type V = EdgeView;

    open spec fn view(&self) -> EdgeView {
        EdgeView { table: self.table@, from: self.from@, to: self.to@, fields: fields_view(self.fields@) }
    }
}

/// A snapshot of the models and edges of a code base.
#[derive(Debug, Clone)]
pub struct SchemaSnapshot {
    pub version: u32,
    /// Generation time, RFC 3339.
    pub generated_at: String,
    pub models: Vec<Model>,
    pub edges: Vec<Edge>,
}

/// Mathematical value of a [`SchemaSnapshot`] (the parts a diff reads).
pub struct SnapshotView {
    pub models: Seq<ModelView>,
    pub edges: Seq<EdgeView>,
}

impl View for SchemaSnapshot {
    type V = SnapshotView;

    open spec fn view(&self) -> SnapshotView {
        SnapshotView {
            models: self.models@.map_values(|m: Model| m@),
            edges: self.edges@.map_values(|e: Edge| e@),
        }
    }
}

/// The shape of every RFC 3339 time `to_rfc3339` writes for UTC: date, `T`, time (at least
/// 25 characters in all) and the offset `+00:00` at the end.
pub open spec fn utc_rfc3339_shape(s: Seq<char>) -> bool {
    &&& s.len() >= 25
    &&& s.subrange(s.len() - 6, s.len() as int) == "+00:00"@
}

/// The current time in RFC 3339 (`chrono::Utc::now().to_rfc3339()`). Which time is read is
/// not stated; every outcome has the shape of a UTC time (a year of four digits or a signed
/// longer one, then `-MM-DDTHH:MM:SS`, optional fraction, and `+00:00`).
#[verifier::external_body]
fn now_rfc3339() -> (r: String)
    ensures
        utc_rfc3339_shape(r@),
{
    chrono::Utc::now().to_rfc3339()
}

impl SchemaSnapshot {
    /// An empty snapshot (version 1) stamped with the current time.
    pub fn new() -> (r: SchemaSnapshot)
        ensures
            r.version == 1,
            r.models@.len() == 0,
            r.edges@.len() == 0,
            utc_rfc3339_shape(r.generated_at@),
    {
        Self::generated(now_rfc3339())
    }

    /// An empty snapshot (version 1) stamped with the given time.
    pub fn generated(generated_at: String) -> (r: SchemaSnapshot)
        ensures
            r.version == 1,
            r.generated_at == generated_at,
            r.models@.len() == 0,
            r.edges@.len() == 0,
    {
        SchemaSnapshot { version: 1, generated_at, models: Vec::new(), edges: Vec::new() }
    }
}

} // verus!
