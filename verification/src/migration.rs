//! Migration source text: operation lists rendered as Rust code, and new migration files.
use vstd::prelude::*;
use crate::diff::{def_of, diff_schemas, spec_diff};
use crate::pattern::{lowercase, to_lowercase};
use crate::schema_ops::{FieldDef, FieldDefView, FieldType, FieldTypeView, SchemaOp, SchemaOpView, field_defs_view, ops_view};
use crate::snapshot::{FieldKind, FieldView, SchemaSnapshot};
use crate::text::{chars_of, owned, push_str, string_from_chars};

verus! {

// ---------------------------------------------------------------------------
// Rendering operations as code
// ---------------------------------------------------------------------------

/// `parts` joined with `sep` between consecutive parts.
pub open spec fn join(parts: Seq<Seq<char>>, sep: Seq<char>) -> Seq<char>
    decreases parts.len(),
{
    if parts.len() == 0 {
        Seq::empty()
    } else if parts.len() == 1 {
        parts[0]
    } else {
        join(parts.drop_last(), sep) + sep + parts.last()
    }
}

/// `true` or `false`, as `bool`'s `Display` writes it.
pub open spec fn bool_text(b: bool) -> Seq<char> {
    if b {
        "true"@
    } else {
        "false"@
    }
}

/// The code of a field type.
pub open spec fn field_type_code(t: FieldTypeView) -> Seq<char> {
    match t {
        FieldTypeView::String => "FieldType::String"@,
        FieldTypeView::Int64 => "FieldType::Int64"@,
        FieldTypeView::Float64 => "FieldType::Float64"@,
        FieldTypeView::Bool => "FieldType::Bool"@,
        FieldTypeView::DateTime => "FieldType::DateTime"@,
        FieldTypeView::Uuid => "FieldType::Uuid"@,
        FieldTypeView::Json => "FieldType::Json"@,
        FieldTypeView::Other(s) => "FieldType::Other(\""@ + s + "\".into())"@,
    }
}

/// The code of a field definition.
pub open spec fn field_code(f: FieldDefView) -> Seq<char> {
    "FieldDef { name: \""@ + f.name + "\".into(), ty: "@ + field_type_code(f.ty) + ", primary: "@
        + bool_text(f.primary) + " }"@
}

/// The code of a list of field definitions, comma separated.
pub open spec fn fields_code(fs: Seq<FieldDefView>) -> Seq<char> {
    join(fs.map_values(|f: FieldDefView| field_code(f)), ", "@)
}

/// The code of a schema operation.
pub open spec fn op_code(op: SchemaOpView) -> Seq<char> {
    match op {
        SchemaOpView::CreateTable { name, fields } => "SchemaOp::CreateTable { name: \""@ + name
            + "\".into(), fields: vec!["@ + fields_code(fields) + "] }"@,
        SchemaOpView::DropTable { name } => "SchemaOp::DropTable { name: \""@ + name + "\".into() }"@,
        SchemaOpView::AddField { table, field } => "SchemaOp::AddField { table: \""@ + table
            + "\".into(), field: "@ + field_code(field) + " }"@,
        SchemaOpView::DropField { table, field } => "SchemaOp::DropField { table: \""@ + table
            + "\".into(), field: \""@ + field + "\".into() }"@,
        SchemaOpView::CreateEdge { name, from, to, fields } => "SchemaOp::CreateEdge { name: \""@
            + name + "\".into(), from: \""@ + from + "\".into(), to: \""@ + to
            + "\".into(), fields: vec!["@ + fields_code(fields) + "] }"@,
        SchemaOpView::DropEdge { name } => "SchemaOp::DropEdge { name: \""@ + name + "\".into() }"@,
    }
}

/// The code of a list of operations: `[op, op, ...]`.
pub open spec fn ops_code(ops: Seq<SchemaOpView>) -> Seq<char> {
    "["@ + join(ops.map_values(|o: SchemaOpView| op_code(o)), ", "@) + "]"@
}

/// The field type a piece of code names: `FieldType::` followed by a variant's name, or
/// `FieldType::Other("..".into())` with the type's text between the quotes.
pub open spec fn field_type_named(code: Seq<char>) -> Option<FieldTypeView> {
    let prefix = "FieldType::"@;
    if code.len() < prefix.len() || code.subrange(0, prefix.len() as int) != prefix {
        None
    } else {
        let v = code.subrange(prefix.len() as int, code.len() as int);
        if v == "String"@ {
            Some(FieldTypeView::String)
        } else if v == "Int64"@ {
            Some(FieldTypeView::Int64)
        } else if v == "Float64"@ {
            Some(FieldTypeView::Float64)
        } else if v == "Bool"@ {
            Some(FieldTypeView::Bool)
        } else if v == "DateTime"@ {
            Some(FieldTypeView::DateTime)
        } else if v == "Uuid"@ {
            Some(FieldTypeView::Uuid)
        } else if v == "Json"@ {
            Some(FieldTypeView::Json)
        } else {
            let open = "Other(\""@;
            let close = "\".into())"@;
            if v.len() >= open.len() + close.len() && v.subrange(0, open.len() as int) == open
                && v.subrange(v.len() - close.len(), v.len() as int) == close {
                Some(FieldTypeView::Other(v.subrange(open.len() as int, v.len() - close.len())))
            } else {
                None
            }
        }
    }
}

/// The code written for a field type names that same type: reading it back gives the type.
/// So different types are written differently.
pub proof fn lemma_field_type_code_reads_back(t: FieldTypeView)
    ensures
        field_type_named(field_type_code(t)) == Some(t),
{
    reveal_strlit("FieldType::");
    reveal_strlit("FieldType::String");
    reveal_strlit("FieldType::Int64");
    reveal_strlit("FieldType::Float64");
    reveal_strlit("FieldType::Bool");
    reveal_strlit("FieldType::DateTime");
    reveal_strlit("FieldType::Uuid");
    reveal_strlit("FieldType::Json");
    reveal_strlit("FieldType::Other(\"");
    reveal_strlit("\".into())");
    reveal_strlit("String");
    reveal_strlit("Int64");
    reveal_strlit("Float64");
    reveal_strlit("Bool");
    reveal_strlit("DateTime");
    reveal_strlit("Uuid");
    reveal_strlit("Json");
    reveal_strlit("Other(\"");
    let code = field_type_code(t);
    let v = code.subrange(11, code.len() as int);
    match t {
        FieldTypeView::Other(s) => {
            let open = "Other(\""@;
            let close = "\".into())"@;
            assert(code == "FieldType::"@ + (open + s + close));
            assert(code.subrange(0, 11) =~= "FieldType::"@);
            assert(v =~= open + s + close);
            assert(v.subrange(0, 7) =~= open);
            assert(v.subrange(v.len() - 9, v.len() as int) =~= close);
            assert(v.subrange(7, v.len() - 9) =~= s);
            assert(v.len() >= 16);
            assert(v != "String"@ && v != "Int64"@ && v != "Float64"@ && v != "Bool"@);
            assert(v != "DateTime"@ && v != "Uuid"@ && v != "Json"@);
        },
        FieldTypeView::String => {
            assert(code.subrange(0, 11) =~= "FieldType::"@);
            assert(v =~= "String"@);
        },
        FieldTypeView::Int64 => {
            assert(code.subrange(0, 11) =~= "FieldType::"@);
            assert(v =~= "Int64"@);
        },
        FieldTypeView::Float64 => {
            assert(code.subrange(0, 11) =~= "FieldType::"@);
            assert(v =~= "Float64"@);
        },
        FieldTypeView::Bool => {
            assert(code.subrange(0, 11) =~= "FieldType::"@);
            assert(v =~= "Bool"@);
        },
        FieldTypeView::DateTime => {
            assert(code.subrange(0, 11) =~= "FieldType::"@);
            assert(v =~= "DateTime"@);
        },
        FieldTypeView::Uuid => {
            assert(code.subrange(0, 11) =~= "FieldType::"@);
            assert(v =~= "Uuid"@);
            assert(v != "Bool"@) by {
                assert(v[0] != "Bool"@[0]);
            }
            assert(field_type_named(code) == Some(t));
        },
        FieldTypeView::Json => {
            assert(code.subrange(0, 11) =~= "FieldType::"@);
            assert(v =~= "Json"@);
            assert(v != "Bool"@) by {
                assert(v[0] != "Bool"@[0]);
            }
            assert(v != "Uuid"@) by {
                assert(v[0] != "Uuid"@[0]);
            }
            assert(field_type_named(code) == Some(t));
        },
    }
}

/// Different field types are written as different code.
pub proof fn lemma_field_type_code_injective(a: FieldTypeView, b: FieldTypeView)
    ensures
        field_type_code(a) == field_type_code(b) ==> a == b,
{
    lemma_field_type_code_reads_back(a);
    lemma_field_type_code_reads_back(b);
}

/// The code of a field definition is a `FieldDef` literal with the field's name, the code of
/// its type, and `primary: true` exactly when the field is primary.
pub proof fn lemma_field_code_is_its_literal(f: FieldDefView)
    ensures
        field_code(f) == "FieldDef { name: \""@ + f.name + "\".into(), ty: "@ + field_type_code(f.ty)
            + ", primary: "@ + (if f.primary { "true"@ } else { "false"@ }) + " }"@,
{
}

/// The name of a scanned column type's variant.
pub open spec fn kind_name(k: FieldKind) -> Seq<char> {
    match k {
        FieldKind::String => "String"@,
        FieldKind::Int64 => "Int64"@,
        FieldKind::Float64 => "Float64"@,
        FieldKind::Bool => "Bool"@,
        FieldKind::DateTime => "DateTime"@,
        FieldKind::Uuid => "Uuid"@,
        FieldKind::Json => "Json"@,
        FieldKind::Other(_) => "Other"@,
    }
}

/// The definition an operation gives a scanned field keeps the field: its name, its primary
/// flag, and its type (the operation type of the same variant, or the same text for a type
/// of no known kind), so that its code names the scanned type.
pub proof fn lemma_field_definition_keeps_the_field(f: FieldView)
    ensures
        def_of(f).name == f.name,
        def_of(f).primary == f.primary,
        f.ty matches FieldKind::Other(s) ==> def_of(f).ty == FieldTypeView::Other(s),
        !(f.ty is Other) ==> field_type_named("FieldType::"@ + kind_name(f.ty)) == Some(def_of(f).ty),
{
    reveal_strlit("FieldType::");
    reveal_strlit("FieldType::String");
    reveal_strlit("FieldType::Int64");
    reveal_strlit("FieldType::Float64");
    reveal_strlit("FieldType::Bool");
    reveal_strlit("FieldType::DateTime");
    reveal_strlit("FieldType::Uuid");
    reveal_strlit("FieldType::Json");
    reveal_strlit("String");
    reveal_strlit("Int64");
    reveal_strlit("Float64");
    reveal_strlit("Bool");
    reveal_strlit("DateTime");
    reveal_strlit("Uuid");
    reveal_strlit("Json");
    lemma_field_type_code_reads_back(def_of(f).ty);
    if !(f.ty is Other) {
        assert("FieldType::"@ + kind_name(f.ty) =~= field_type_code(def_of(f).ty));
    }
}

/// The name of an operation's variant.
pub open spec fn op_kind_name(op: SchemaOpView) -> Seq<char> {
    match op {
        SchemaOpView::CreateTable { .. } => "CreateTable"@,
        SchemaOpView::DropTable { .. } => "DropTable"@,
        SchemaOpView::AddField { .. } => "AddField"@,
        SchemaOpView::DropField { .. } => "DropField"@,
        SchemaOpView::CreateEdge { .. } => "CreateEdge"@,
        SchemaOpView::DropEdge { .. } => "DropEdge"@,
    }
}

/// The code of an operation is a `SchemaOp::` constructor of that operation's own variant,
/// whose first field is the operation's table (`name:` for table and edge operations,
/// `table:` for field operations).
pub proof fn lemma_op_code_names_its_variant(op: SchemaOpView)
    ensures
        ({
            let head = match op {
                SchemaOpView::CreateTable { name, .. } => " { name: \""@ + name,
                SchemaOpView::DropTable { name } => " { name: \""@ + name,
                SchemaOpView::CreateEdge { name, .. } => " { name: \""@ + name,
                SchemaOpView::DropEdge { name } => " { name: \""@ + name,
                SchemaOpView::AddField { table, .. } => " { table: \""@ + table,
                SchemaOpView::DropField { table, .. } => " { table: \""@ + table,
            };
            let prefix = "SchemaOp::"@ + op_kind_name(op) + head + "\".into()"@;
            &&& prefix.len() <= op_code(op).len()
            &&& op_code(op).subrange(0, prefix.len() as int) == prefix
        }),
{
    reveal_strlit("SchemaOp::CreateTable { name: \"");
    reveal_strlit("SchemaOp::DropTable { name: \"");
    reveal_strlit("SchemaOp::AddField { table: \"");
    reveal_strlit("SchemaOp::DropField { table: \"");
    reveal_strlit("SchemaOp::CreateEdge { name: \"");
    reveal_strlit("SchemaOp::DropEdge { name: \"");
    reveal_strlit("SchemaOp::");
    reveal_strlit("CreateTable");
    reveal_strlit("DropTable");
    reveal_strlit("AddField");
    reveal_strlit("DropField");
    reveal_strlit("CreateEdge");
    reveal_strlit("DropEdge");
    reveal_strlit(" { name: \"");
    reveal_strlit(" { table: \"");
    reveal_strlit("\".into()");
    reveal_strlit("\".into(), fields: vec![");
    reveal_strlit("\".into() }");
    reveal_strlit("\".into(), field: ");
    reveal_strlit("\".into(), from: \"");
    reveal_strlit("\".into(), field: \"");
    let code = op_code(op);
    let head = match op {
        SchemaOpView::CreateTable { name, .. } => " { name: \""@ + name,
        SchemaOpView::DropTable { name } => " { name: \""@ + name,
        SchemaOpView::CreateEdge { name, .. } => " { name: \""@ + name,
        SchemaOpView::DropEdge { name } => " { name: \""@ + name,
        SchemaOpView::AddField { table, .. } => " { table: \""@ + table,
        SchemaOpView::DropField { table, .. } => " { table: \""@ + table,
    };
    let prefix = "SchemaOp::"@ + op_kind_name(op) + head + "\".into()"@;
    let start = match op {
        SchemaOpView::CreateTable { name, .. } => "SchemaOp::CreateTable { name: \""@ + name,
        SchemaOpView::DropTable { name } => "SchemaOp::DropTable { name: \""@ + name,
        SchemaOpView::CreateEdge { name, .. } => "SchemaOp::CreateEdge { name: \""@ + name,
        SchemaOpView::DropEdge { name } => "SchemaOp::DropEdge { name: \""@ + name,
        SchemaOpView::AddField { table, .. } => "SchemaOp::AddField { table: \""@ + table,
        SchemaOpView::DropField { table, .. } => "SchemaOp::DropField { table: \""@ + table,
    };
    assert(prefix =~= start + "\".into()"@);
    let rest = match op {
        SchemaOpView::CreateTable { name, fields } => "\".into(), fields: vec!["@ + fields_code(fields) + "] }"@,
        SchemaOpView::DropTable { name } => "\".into() }"@,
        SchemaOpView::AddField { table, field } => "\".into(), field: "@ + field_code(field) + " }"@,
        SchemaOpView::DropField { table, field } => "\".into(), field: \""@ + field + "\".into() }"@,
        SchemaOpView::CreateEdge { name, from, to, fields } => "\".into(), from: \""@ + from + "\".into(), to: \""@
            + to + "\".into(), fields: vec!["@ + fields_code(fields) + "] }"@,
        SchemaOpView::DropEdge { name } => "\".into() }"@,
    };
    assert(code =~= start + rest);
    assert(rest.len() >= 8);
    assert(rest.subrange(0, 8) =~= "\".into()"@);
    assert(code.subrange(0, prefix.len() as int) =~= prefix) by {
        assert forall|i: int| 0 <= i < prefix.len() implies code[i] == prefix[i] by {
            if i >= start.len() {
                assert(code[i] == rest[i - start.len()]);
                assert(rest[i - start.len()] == rest.subrange(0, 8)[i - start.len()]);
            }
        }
    }
}

/// The code of a field type.
pub fn render_field_type(ft: &FieldType) -> (r: String)
    ensures
        r@ == field_type_code(ft@),
{
    match ft {
        FieldType::String => owned("FieldType::String"),
        FieldType::Int64 => owned("FieldType::Int64"),
        FieldType::Float64 => owned("FieldType::Float64"),
        FieldType::Bool => owned("FieldType::Bool"),
        FieldType::DateTime => owned("FieldType::DateTime"),
        FieldType::Uuid => owned("FieldType::Uuid"),
        FieldType::Json => owned("FieldType::Json"),
        FieldType::Other(s) => {
            let mut r = owned("FieldType::Other(\"");
            push_str(&mut r, s.as_str());
            push_str(&mut r, "\".into())");
            r
        },
    }
}

/// `true` or `false`.
fn bool_str(b: bool) -> (r: String)
    ensures
        r@ == bool_text(b),
{
    if b {
        owned("true")
    } else {
        owned("false")
    }
}

/// The code of a field definition.
pub fn render_field(f: &FieldDef) -> (r: String)
    ensures
        r@ == field_code(f@),
{
    let mut r = owned("FieldDef { name: \"");
    push_str(&mut r, f.name.as_str());
    push_str(&mut r, "\".into(), ty: ");
    push_str(&mut r, render_field_type(&f.ty).as_str());
    push_str(&mut r, ", primary: ");
    push_str(&mut r, bool_str(f.primary).as_str());
    push_str(&mut r, " }");
    r
}

/// Appends `part` to `acc`, after `sep` unless `acc` holds no part yet.
fn join_push(acc: &mut String, count: usize, sep: &str, part: &str)
    requires
        count == 0 ==> old(acc)@.len() == 0,
    ensures
        count == 0 ==> final(acc)@ == part@,
        count > 0 ==> final(acc)@ == old(acc)@ + sep@ + part@,
{
    if count > 0 {
        push_str(acc, sep);
    }
    push_str(acc, part);
    proof {
        if count == 0 {
            assert(old(acc)@ + part@ =~= part@);
        }
    }
}

/// The code of a list of field definitions, comma separated.
pub fn render_fields(fields: &[FieldDef]) -> (r: String)
    ensures
        r@ == fields_code(field_defs_view(fields@)),
{
    let ghost codes = field_defs_view(fields@).map_values(|f: FieldDefView| field_code(f));
    let mut r = String::new();
    let mut i: usize = 0;
    while i < fields.len()
        invariant
            0 <= i <= fields@.len(),
            codes == field_defs_view(fields@).map_values(|f: FieldDefView| field_code(f)),
            codes.len() == fields@.len(),
            r@ == join(codes.take(i as int), ", "@),
        decreases fields@.len() - i,
    {
        let code = render_field(&fields[i]);
        assert(codes.take(i + 1).drop_last() =~= codes.take(i as int));
        assert(codes[i as int] == code@);
        proof {
            if i == 0 {
                assert(codes.take(0).len() == 0);
            }
        }
        join_push(&mut r, i, ", ", code.as_str());
        i += 1;
    }
    assert(codes.take(fields@.len() as int) =~= codes);
    r
}

/// The code of a schema operation.
pub fn render_op(op: &SchemaOp) -> (r: String)
    ensures
        r@ == op_code(op@),
{
    match op {
        SchemaOp::CreateTable { name, fields } => {
            let mut r = owned("SchemaOp::CreateTable { name: \"");
            push_str(&mut r, name.as_str());
            push_str(&mut r, "\".into(), fields: vec![");
            push_str(&mut r, render_fields(fields.as_slice()).as_str());
            push_str(&mut r, "] }");
            r
        },
        SchemaOp::DropTable { name } => {
            let mut r = owned("SchemaOp::DropTable { name: \"");
            push_str(&mut r, name.as_str());
            push_str(&mut r, "\".into() }");
            r
        },
        SchemaOp::AddField { table, field } => {
            let mut r = owned("SchemaOp::AddField { table: \"");
            push_str(&mut r, table.as_str());
            push_str(&mut r, "\".into(), field: ");
            push_str(&mut r, render_field(field).as_str());
            push_str(&mut r, " }");
            r
        },
        SchemaOp::DropField { table, field } => {
            let mut r = owned("SchemaOp::DropField { table: \"");
            push_str(&mut r, table.as_str());
            push_str(&mut r, "\".into(), field: \"");
            push_str(&mut r, field.as_str());
            push_str(&mut r, "\".into() }");
            r
        },
        SchemaOp::CreateEdge { name, from, to, fields } => {
            let mut r = owned("SchemaOp::CreateEdge { name: \"");
            push_str(&mut r, name.as_str());
            push_str(&mut r, "\".into(), from: \"");
            push_str(&mut r, from.as_str());
            push_str(&mut r, "\".into(), to: \"");
            push_str(&mut r, to.as_str());
            push_str(&mut r, "\".into(), fields: vec![");
            push_str(&mut r, render_fields(fields.as_slice()).as_str());
            push_str(&mut r, "] }");
            r
        },
        SchemaOp::DropEdge { name } => {
            let mut r = owned("SchemaOp::DropEdge { name: \"");
            push_str(&mut r, name.as_str());
            push_str(&mut r, "\".into() }");
            r
        },
    }
}

/// The code of a list of operations: `[op, op, ...]`.
pub fn render_ops(ops: &[SchemaOp]) -> (r: String)
    ensures
        r@ == ops_code(ops_view(ops@)),
{
    let ghost codes = ops_view(ops@).map_values(|o: SchemaOpView| op_code(o));
    let mut parts = String::new();
    let mut i: usize = 0;
    while i < ops.len()
        invariant
            0 <= i <= ops@.len(),
            codes == ops_view(ops@).map_values(|o: SchemaOpView| op_code(o)),
            codes.len() == ops@.len(),
            parts@ == join(codes.take(i as int), ", "@),
        decreases ops@.len() - i,
    {
        let code = render_op(&ops[i]);
        assert(codes.take(i + 1).drop_last() =~= codes.take(i as int));
        assert(codes[i as int] == code@);
        join_push(&mut parts, i, ", ", code.as_str());
        i += 1;
    }
    assert(codes.take(ops@.len() as int) =~= codes);
    let mut r = owned("[");
    push_str(&mut r, parts.as_str());
    push_str(&mut r, "]");
    r
}

// ---------------------------------------------------------------------------
// New migration files
// ---------------------------------------------------------------------------

/// `s` with every space replaced by `_`.
pub open spec fn spaces_to_underscores(s: Seq<char>) -> Seq<char> {
    s.map_values(|c: char| if c == ' ' { '_' } else { c })
}

/// The slug of a migration name: spaces replaced by `_`, then lowercased.
pub open spec fn slug(name: Seq<char>) -> Seq<char> {
    lowercase(spaces_to_underscores(name))
}

/// The slug of a migration name (`name.replace(' ', "_").to_lowercase()`).
pub fn migration_slug(name: &str) -> (r: String)
    ensures
        r@ == slug(name@),
        crate::pattern::is_ascii(name@) ==> r@ == crate::pattern::ascii_lower(spaces_to_underscores(name@)),
{
    let v = chars_of(name);
    let mut out: Vec<char> = Vec::new();
    let mut i: usize = 0;
    while i < v.len()
        invariant
            0 <= i <= v@.len(),
            v@ == name@,
            out@ == spaces_to_underscores(v@.take(i as int)),
        decreases v@.len() - i,
    {
        let c = v[i];
        out.push(if c == ' ' { '_' } else { c });
        assert(spaces_to_underscores(v@.take(i + 1)) =~= spaces_to_underscores(v@.take(i as int)).push(
            if c == ' ' { '_' } else { c },
        ));
        i += 1;
    }
    assert(v@.take(v@.len() as int) =~= v@);
    let replaced = string_from_chars(out.as_slice());
    proof {
        if crate::pattern::is_ascii(name@) {
            assert(crate::pattern::is_ascii(replaced@));
        }
    }
    to_lowercase(replaced.as_str())
}

/// The path of a new migration file: `migrations/<id>_<slug>.rs`.
pub open spec fn migration_path(id: Seq<char>, snake: Seq<char>) -> Seq<char> {
    "migrations/"@ + id + "_"@ + snake + ".rs"@
}

/// The first part of a migration source, up to the name of its struct.
pub const MIGRATION_HEAD: &'static str = "// Auto-generated migration based on schema diff
use async_trait::async_trait;
use junction_rs_core::schema_ops::{SchemaOp, FieldDef, FieldType};

#[async_trait]
pub trait Migration {
    fn id(&self) -> &'static str;
    fn description(&self) -> &'static str;
    async fn up(&self) -> anyhow::Result<Vec<SchemaOp>>;
    async fn down(&self) -> anyhow::Result<Vec<SchemaOp>>;
}

pub struct Migration";

/// The source text of a migration file with the given id, slug and operation lists (as code).
pub open spec fn migration_text(id: Seq<char>, snake: Seq<char>, forward: Seq<char>, reverse: Seq<char>) -> Seq<char> {
    MIGRATION_HEAD@ + id + ";\n\n#[async_trait]\nimpl Migration for Migration"@ + id
        + " {\n    fn id(&self) -> &'static str { \""@ + id
        + "\" }\n    fn description(&self) -> &'static str { \""@ + snake
        + "\" }\n    async fn up(&self) -> anyhow::Result<Vec<SchemaOp>> {\n        Ok(vec!"@ + forward
        + ")\n    }\n    async fn down(&self) -> anyhow::Result<Vec<SchemaOp>> {\n        Ok(vec!"@ + reverse
        + ")\n    }\n}\n"@
}

/// The source text of a migration file.
pub fn migration_source(id: &str, snake: &str, forward_code: &str, reverse_code: &str) -> (r: String)
    ensures
        r@ == migration_text(id@, snake@, forward_code@, reverse_code@),
{
    let mut r = owned(MIGRATION_HEAD);
    push_str(&mut r, id);
    push_str(&mut r, ";\n\n#[async_trait]\nimpl Migration for Migration");
    push_str(&mut r, id);
    push_str(&mut r, " {\n    fn id(&self) -> &'static str { \"");
    push_str(&mut r, id);
    push_str(&mut r, "\" }\n    fn description(&self) -> &'static str { \"");
    push_str(&mut r, snake);
    push_str(&mut r, "\" }\n    async fn up(&self) -> anyhow::Result<Vec<SchemaOp>> {\n        Ok(vec!");
    push_str(&mut r, forward_code);
    push_str(&mut r, ")\n    }\n    async fn down(&self) -> anyhow::Result<Vec<SchemaOp>> {\n        Ok(vec!");
    push_str(&mut r, reverse_code);
    push_str(&mut r, ")\n    }\n}\n");
    r
}

/// A migration to write: its path, its source text, and how many forward operations it has.
#[derive(Debug, Clone)]
pub struct MigrationPlan {
    pub file_name: String,
    pub source: String,
    pub op_count: usize,
}

/// The migration that takes the schema from `old` to `new`, named `name` and numbered `id`:
/// `None` where the diff has no forward operation (nothing to migrate). Its file is
/// `migrations/<id>_<slug>.rs`, and its `up` and `down` return the diff's forward and
/// reverse operations.
pub fn plan_migration(old: &SchemaSnapshot, new: &SchemaSnapshot, id: &str, name: &str) -> (r: Option<MigrationPlan>)
    ensures
        r is None <==> spec_diff(old@, new@).0.len() == 0,
        r matches Some(p) ==> {
            &&& p.file_name@ == migration_path(id@, slug(name@))
            &&& p.source@ == migration_text(
                id@,
                slug(name@),
                ops_code(spec_diff(old@, new@).0),
                ops_code(spec_diff(old@, new@).1),
            )
            &&& p.op_count == spec_diff(old@, new@).0.len()
        },
{
    let diff = diff_schemas(old, new);
    if diff.ops_forward.len() == 0 {
        return None;
    }
    let forward_code = render_ops(diff.ops_forward.as_slice());
    let reverse_code = render_ops(diff.ops_reverse.as_slice());
    let snake = migration_slug(name);
    let mut file_name = owned("migrations/");
    push_str(&mut file_name, id);
    push_str(&mut file_name, "_");
    push_str(&mut file_name, snake.as_str());
    push_str(&mut file_name, ".rs");
    let source = migration_source(id, snake.as_str(), forward_code.as_str(), reverse_code.as_str());
    Some(MigrationPlan { file_name, source, op_count: diff.ops_forward.len() })
}

} // verus!
