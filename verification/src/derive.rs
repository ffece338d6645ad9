//! What deriving `Node` or `Edge` on a struct produces: the table name, the typed schema
//! columns and, for edges, the endpoint types and field names; or the error reported.
use vstd::prelude::*;
use crate::text::{opt_view, chars_of, owned, str_eq, string_from_chars, slice_vec};

verus! {

// ---------------------------------------------------------------------------
// Declarations
// ---------------------------------------------------------------------------

/// A type as written in a declaration: a path (`a::b::C<T, U>`), or any other type.
#[derive(Debug)]
pub enum TypeExpr {
    Path(Vec<TypeSegment>),
    Other(String),
}

/// One segment of a type path with its angle-bracketed generic arguments.
#[derive(Debug)]
pub struct TypeSegment {
    pub ident: String,
    pub args: Vec<GenericArg>,
}

/// A generic argument: a type, or anything else (a lifetime, a constant, a binding).
#[derive(Debug)]
pub enum GenericArg {
    Type(TypeExpr),
    Other(String),
}

/// Mathematical value of a [`TypeExpr`].
pub enum TypeView {
    Path(Seq<SegmentView>),
    Other(Seq<char>),
}

/// Mathematical value of a [`TypeSegment`].
pub struct SegmentView {
    pub ident: Seq<char>,
    pub args: Seq<ArgView>,
}

/// Mathematical value of a [`GenericArg`].
pub enum ArgView {
    Type(TypeView),
    Other(Seq<char>),
}

/// The value of a type.
pub open spec fn type_view(t: TypeExpr) -> TypeView
    decreases t,
{
    match t {
        TypeExpr::Path(segs) => TypeView::Path(segs_view(segs@)),
        TypeExpr::Other(s) => TypeView::Other(s@),
    }
}

/// The values of a list of path segments.
pub open spec fn segs_view(segs: Seq<TypeSegment>) -> Seq<SegmentView>
    decreases segs,
{
    if segs.len() == 0 {
        Seq::empty()
    } else {
        segs_view(segs.drop_last()).push(SegmentView { ident: segs.last().ident@, args: args_view(segs.last().args@) })
    }
}

/// The values of a list of generic arguments.
pub open spec fn args_view(args: Seq<GenericArg>) -> Seq<ArgView>
    decreases args,
{
    if args.len() == 0 {
        Seq::empty()
    } else {
        args_view(args.drop_last()).push(
            match args.last() {
                GenericArg::Type(t) => ArgView::Type(type_view(t)),
                GenericArg::Other(s) => ArgView::Other(s@),
            },
        )
    }
}

impl TypeExpr {
    /// A copy of the type.
    pub fn duplicate(&self) -> (r: TypeExpr)
        ensures
            type_view(r) == type_view(*self),
        decreases self,
    {
        match self {
            TypeExpr::Path(segs) => {
                let mut out: Vec<TypeSegment> = Vec::new();
                let mut i: usize = 0;
                while i < segs.len()
                    invariant
                        0 <= i <= segs@.len(),
                        *self == TypeExpr::Path(*segs),
                        segs_view(out@) == segs_view(segs@.take(i as int)),
                    decreases segs@.len() - i,
                {
                    proof {
                        assert(*segs == self->Path_0);
                        assert(decreases_to!(*self => self->Path_0));
                        assert(decreases_to!(self->Path_0 => (self->Path_0)@));
                        assert(decreases_to!((self->Path_0)@ => (self->Path_0)@[i as int]));
                    }
                    let d = segs[i].duplicate();
                    let ghost before = out@;
                    out.push(d);
                    assert(out@.drop_last() =~= before);
                    assert(segs@.take(i + 1).drop_last() =~= segs@.take(i as int));
                    i += 1;
                }
                assert(segs@.take(segs@.len() as int) =~= segs@);
                TypeExpr::Path(out)
            },
            TypeExpr::Other(s) => TypeExpr::Other(owned(s.as_str())),
        }
    }
}

impl TypeSegment {
    /// A copy of the segment.
    pub fn duplicate(&self) -> (r: TypeSegment)
        ensures
            r.ident@ == self.ident@,
            args_view(r.args@) == args_view(self.args@),
        decreases self,
    {
        let mut out: Vec<GenericArg> = Vec::new();
        let mut i: usize = 0;
        while i < self.args.len()
            invariant
                0 <= i <= self.args@.len(),
                args_view(out@) == args_view(self.args@.take(i as int)),
            decreases self.args@.len() - i,
        {
            proof {
                assert(decreases_to!(self => self.args@[i as int]));
            }
            let d = self.args[i].duplicate();
            let ghost before = out@;
            out.push(d);
            assert(out@.drop_last() =~= before);
            assert(self.args@.take(i + 1).drop_last() =~= self.args@.take(i as int));
            i += 1;
        }
        assert(self.args@.take(self.args@.len() as int) =~= self.args@);
        TypeSegment { ident: owned(self.ident.as_str()), args: out }
    }
}

impl GenericArg {
    /// A copy of the argument.
    pub fn duplicate(&self) -> (r: GenericArg)
        ensures
            match (r, *self) {
                (GenericArg::Type(a), GenericArg::Type(b)) => type_view(a) == type_view(b),
                (GenericArg::Other(a), GenericArg::Other(b)) => a@ == b@,
                _ => false,
            },
        decreases self,
    {
        match self {
            GenericArg::Type(t) => GenericArg::Type(t.duplicate()),
            GenericArg::Other(s) => GenericArg::Other(owned(s.as_str())),
        }
    }
}

// ---------------------------------------------------------------------------
// Attributes
// ---------------------------------------------------------------------------

/// How an attribute is written: `#[a(...)]`, `#[a]` or `#[a = ...]`.
#[derive(Debug, Clone, Copy, PartialEq, Eq, Structural)]
pub enum AttrForm {
    List,
    Path,
    NameValue,
}

/// What follows the key of an item inside `#[junction(...)]`.
#[derive(Debug)]
pub enum MetaValue {
    /// Nothing: `key`.
    Absent,
    /// A parenthesized list: `key(...)`.
    List,
    /// A string literal: `key = "text"` (its value).
    Str(String),
    /// A path: `key = a::b` (its segments).
    Path(Vec<String>),
    /// Any other value: `key = 5`.
    Other,
}

/// Mathematical value of a [`MetaValue`].
pub enum MetaValueView {
    Absent,
    List,
    Str(Seq<char>),
    Path(Seq<Seq<char>>),
    Other,
}

impl View for MetaValue {
    type V = MetaValueView;

    open spec fn view(&self) -> MetaValueView {
        match self {
            MetaValue::Absent => MetaValueView::Absent,
            MetaValue::List => MetaValueView::List,
            MetaValue::Str(s) => MetaValueView::Str(s@),
            MetaValue::Path(p) => MetaValueView::Path(p@.map_values(|x: String| x@)),
            MetaValue::Other => MetaValueView::Other,
        }
    }
}

/// One comma-separated item inside `#[junction(...)]`: its key (a path) and its value.
#[derive(Debug)]
pub struct MetaItem {
    pub key: String,
    pub value: MetaValue,
}

/// Mathematical value of a [`MetaItem`].
pub struct MetaItemView {
    pub key: Seq<char>,
    pub value: MetaValueView,
}

impl View for MetaItem {
    type V = MetaItemView;

    open spec fn view(&self) -> MetaItemView {
        MetaItemView { key: self.key@, value: self.value@ }
    }
}

/// An attribute: its path (`junction`, `derive`, ...), its form, and the items of a list.
#[derive(Debug)]
pub struct Attribute {
    pub path: String,
    pub form: AttrForm,
    pub items: Vec<MetaItem>,
}

/// The views of a list of items.
pub open spec fn items_view(v: Seq<MetaItem>) -> Seq<MetaItemView> {
    v.map_values(|m: MetaItem| m@)
}

/// A field declaration: its identifier as written (`r#in` keeps its prefix), its type and
/// its attributes.
#[derive(Debug)]
pub struct FieldDecl {
    pub ident: String,
    pub ty: TypeExpr,
    pub attrs: Vec<Attribute>,
}

/// A struct declaration: its name, its attributes, and its named fields (`named_fields` is
/// false for a tuple or unit struct, or for anything that is not a struct).
#[derive(Debug)]
pub struct StructDef {
    pub name: String,
    pub attrs: Vec<Attribute>,
    pub named_fields: bool,
    pub fields: Vec<FieldDecl>,
}

/// Why deriving failed; `message` gives the compile error's text.
#[derive(Debug, Clone, Copy, PartialEq, Eq, Structural)]
pub enum DeriveError {
    ExpectedArguments,
    ExpectedParentheses,
    ExpectedEquals,
    ExpectedComma,
    LegacyEndpoints,
    UnsupportedOption,
    DuplicateSource,
    DuplicateTarget,
    UnsupportedFieldOption,
    MultipleSources,
    MultipleTargets,
    UnknownSourceType,
    UnknownTargetType,
    MissingSource,
    MissingTarget,
}

/// The text of an error.
pub open spec fn error_text(e: DeriveError) -> Seq<char> {
    match e {
        DeriveError::ExpectedArguments => "expected attribute arguments in parentheses: #[junction(...)]"@,
        DeriveError::ExpectedParentheses => "expected parentheses: #[junction(...)]"@,
        DeriveError::ExpectedEquals => "expected `=`"@,
        DeriveError::ExpectedComma => "expected `,`"@,
        DeriveError::LegacyEndpoints => "#[junction(from = ...)] and #[junction(to = ...)] are no longer supported; annotate fields with #[junction(source)] / #[junction(target)] instead"@,
        DeriveError::UnsupportedOption => "unsupported option inside #[junction(...)]"@,
        DeriveError::DuplicateSource => "duplicate #[junction(source)] on the same field"@,
        DeriveError::DuplicateTarget => "duplicate #[junction(target)] on the same field"@,
        DeriveError::UnsupportedFieldOption => "unsupported option inside #[junction(...)] for fields"@,
        DeriveError::MultipleSources => "Only one field may be annotated with #[junction(source)]"@,
        DeriveError::MultipleTargets => "Only one field may be annotated with #[junction(target)]"@,
        DeriveError::UnknownSourceType => "Could not infer source node type from field annotated with #[junction(source)]"@,
        DeriveError::UnknownTargetType => "Could not infer target node type from field annotated with #[junction(target)]"@,
        DeriveError::MissingSource => "Missing #[junction(source)] field on Edge struct"@,
        DeriveError::MissingTarget => "Missing #[junction(target)] field on Edge struct"@,
    }
}

impl DeriveError {
    /// The compile error's text.
    pub fn message(&self) -> (r: &'static str)
        ensures
            r@ == error_text(*self),
    {
        match self {
            DeriveError::ExpectedArguments => "expected attribute arguments in parentheses: #[junction(...)]",
            DeriveError::ExpectedParentheses => "expected parentheses: #[junction(...)]",
            DeriveError::ExpectedEquals => "expected `=`",
            DeriveError::ExpectedComma => "expected `,`",
            DeriveError::LegacyEndpoints => "#[junction(from = ...)] and #[junction(to = ...)] are no longer supported; annotate fields with #[junction(source)] / #[junction(target)] instead",
            DeriveError::UnsupportedOption => "unsupported option inside #[junction(...)]",
            DeriveError::DuplicateSource => "duplicate #[junction(source)] on the same field",
            DeriveError::DuplicateTarget => "duplicate #[junction(target)] on the same field",
            DeriveError::UnsupportedFieldOption => "unsupported option inside #[junction(...)] for fields",
            DeriveError::MultipleSources => "Only one field may be annotated with #[junction(source)]",
            DeriveError::MultipleTargets => "Only one field may be annotated with #[junction(target)]",
            DeriveError::UnknownSourceType => "Could not infer source node type from field annotated with #[junction(source)]",
            DeriveError::UnknownTargetType => "Could not infer target node type from field annotated with #[junction(target)]",
            DeriveError::MissingSource => "Missing #[junction(source)] field on Edge struct",
            DeriveError::MissingTarget => "Missing #[junction(target)] field on Edge struct",
        }
    }
}

// ---------------------------------------------------------------------------
// Table names
// ---------------------------------------------------------------------------

/// One step of snake-casing: the text so far, and whether its last character was a
/// lower-case letter or a digit.
pub open spec fn snake_step(acc: (Seq<char>, bool), ch: char) -> (Seq<char>, bool) {
    if 'A' <= ch <= 'Z' {
        let out = if acc.0.len() > 0 && acc.1 {
            acc.0.push('_')
        } else {
            acc.0
        };
        (out.push(crate::pattern::ascii_lower_char(ch)), false)
    } else {
        (acc.0.push(ch), ('a' <= ch <= 'z') || ('0' <= ch <= '9'))
    }
}

/// Snake-casing of a prefix of a name.
pub open spec fn snake_fold(s: Seq<char>) -> (Seq<char>, bool)
    decreases s.len(),
{
    if s.len() == 0 {
        (Seq::empty(), false)
    } else {
        snake_step(snake_fold(s.drop_last()), s.last())
    }
}

/// The default table of a struct: its name in snake case (`FollowEdge` gives `follow_edge`;
/// an upper-case letter after a lower-case letter or a digit starts a new word).
pub open spec fn snake_case(name: Seq<char>) -> Seq<char> {
    snake_fold(name).0
}

/// The default table of a struct named `name`.
pub fn default_table_name(name: &str) -> (r: String)
    ensures
        r@ == snake_case(name@),
{
    let v = chars_of(name);
    let mut out: Vec<char> = Vec::new();
    let mut prev: bool = false;
    let mut i: usize = 0;
    while i < v.len()
        invariant
            0 <= i <= v@.len(),
            v@ == name@,
            snake_fold(v@.take(i as int)) == (out@, prev),
        decreases v@.len() - i,
    {
        let ch = v[i];
        assert(v@.take(i + 1).drop_last() =~= v@.take(i as int));
        if 'A' <= ch && ch <= 'Z' {
            if out.len() > 0 && prev {
                out.push('_');
            }
            let code: u8 = ((ch as u32) + 32) as u8;
            let lower = code as char;
            assert(code == (ch as u32) + 32);
            assert(lower == crate::pattern::ascii_lower_char(ch));
            out.push(lower);
            prev = false;
        } else {
            out.push(ch);
            prev = ('a' <= ch && ch <= 'z') || ('0' <= ch && ch <= '9');
        }
        i += 1;
    }
    assert(v@.take(v@.len() as int) =~= v@);
    string_from_chars(out.as_slice())
}

/// The table an item `table = <value>` names, given the table found so far: a string
/// literal names its value; a path names its last segment, unless a table was found already.
pub open spec fn table_value(v: MetaValueView, table: Option<Seq<char>>) -> Option<Seq<char>> {
    match v {
        MetaValueView::Str(s) => Some(s),
        MetaValueView::Path(segs) => if table is None && segs.len() > 0 {
            Some(segs.last())
        } else {
            table
        },
        _ => table,
    }
}

/// The table after reading a node's `#[junction(...)]` items in order. A `table` item that
/// is not the last takes the rest of the list as its value, which names nothing; an item
/// the reader rejects ends the reading silently.
pub open spec fn node_items(items: Seq<MetaItemView>, table: Option<Seq<char>>) -> Option<Seq<char>>
    decreases items.len(),
{
    if items.len() == 0 {
        table
    } else if items[0].key == "table"@ {
        if items.len() > 1 {
            table
        } else {
            table_value(items[0].value, table)
        }
    } else if items[0].value is Absent {
        node_items(items.drop_first(), table)
    } else {
        table
    }
}

/// The table after reading an edge's `#[junction(...)]` items in order, or the error
/// reported: `table` is the one option, and it needs a value.
pub open spec fn edge_items(items: Seq<MetaItemView>, table: Option<Seq<char>>) -> Result<Option<Seq<char>>, DeriveError>
    decreases items.len(),
{
    if items.len() == 0 {
        Ok(table)
    } else if items[0].key == "table"@ {
        match items[0].value {
            MetaValueView::Absent => Err(DeriveError::ExpectedEquals),
            MetaValueView::List => Err(DeriveError::ExpectedEquals),
            v => if items.len() > 1 {
                Ok(table)
            } else {
                Ok(table_value(v, table))
            },
        }
    } else if items[0].key == "from"@ || items[0].key == "to"@ {
        Err(DeriveError::LegacyEndpoints)
    } else {
        Err(DeriveError::UnsupportedOption)
    }
}

/// The `junction` attributes of a list, as (form, items) pairs in order.
pub open spec fn junction_attrs(attrs: Seq<Attribute>) -> Seq<(AttrForm, Seq<MetaItemView>)>
    decreases attrs.len(),
{
    if attrs.len() == 0 {
        Seq::empty()
    } else if attrs.last().path@ == "junction"@ {
        junction_attrs(attrs.drop_last()).push((attrs.last().form, items_view(attrs.last().items@)))
    } else {
        junction_attrs(attrs.drop_last())
    }
}

/// The table named by a node's attributes, read in order.
pub open spec fn node_table(attrs: Seq<(AttrForm, Seq<MetaItemView>)>) -> Option<Seq<char>>
    decreases attrs.len(),
{
    if attrs.len() == 0 {
        None
    } else {
        let before = node_table(attrs.drop_last());
        if attrs.last().0 == AttrForm::List {
            node_items(attrs.last().1, before)
        } else {
            before
        }
    }
}

/// The error of an attribute that is not a list.
pub open spec fn form_error(form: AttrForm) -> DeriveError {
    if form == AttrForm::Path {
        DeriveError::ExpectedArguments
    } else {
        DeriveError::ExpectedParentheses
    }
}

/// The table named by an edge's attributes, read in order, or the first error.
pub open spec fn edge_table(attrs: Seq<(AttrForm, Seq<MetaItemView>)>) -> Result<Option<Seq<char>>, DeriveError>
    decreases attrs.len(),
{
    if attrs.len() == 0 {
        Ok(None)
    } else {
        match edge_table(attrs.drop_last()) {
            Err(e) => Err(e),
            Ok(before) => if attrs.last().0 == AttrForm::List {
                edge_items(attrs.last().1, before)
            } else {
                Err(form_error(attrs.last().0))
            },
        }
    }
}

/// The role a field plays in an edge.
#[derive(Debug, Clone, Copy, PartialEq, Eq, Structural)]
pub enum Role {
    Source,
    Target,
}

/// The role after reading a field's `#[junction(...)]` items in order, or the error
/// reported: `source` and `target` take no value, and a field has at most one role.
pub open spec fn role_items(items: Seq<MetaItemView>, role: Option<Role>) -> Result<Option<Role>, DeriveError>
    decreases items.len(),
{
    if items.len() == 0 {
        Ok(role)
    } else if items[0].key == "source"@ {
        if role is Some {
            Err(DeriveError::DuplicateSource)
        } else if items[0].value is Absent {
            role_items(items.drop_first(), Some(Role::Source))
        } else {
            Err(DeriveError::ExpectedComma)
        }
    } else if items[0].key == "target"@ {
        if role is Some {
            Err(DeriveError::DuplicateTarget)
        } else if items[0].value is Absent {
            role_items(items.drop_first(), Some(Role::Target))
        } else {
            Err(DeriveError::ExpectedComma)
        }
    } else {
        Err(DeriveError::UnsupportedFieldOption)
    }
}

/// The role a field's attributes give it, read in order, or the first error.
pub open spec fn field_role(attrs: Seq<(AttrForm, Seq<MetaItemView>)>) -> Result<Option<Role>, DeriveError>
    decreases attrs.len(),
{
    if attrs.len() == 0 {
        Ok(None)
    } else {
        match field_role(attrs.drop_last()) {
            Err(e) => Err(e),
            Ok(before) => if attrs.last().0 == AttrForm::List {
                role_items(attrs.last().1, before)
            } else {
                Err(form_error(attrs.last().0))
            },
        }
    }
}

/// A copy of a string list.

/// The table an item value names, given the table found so far.
fn read_table_value(v: &MetaValue, table: Option<String>) -> (r: Option<String>)
    ensures
        r matches Some(t) ==> table_value(v@, opt_view(table)) == Some(t@),
        r is None ==> table_value(v@, opt_view(table)) is None,
{
    match v {
        MetaValue::Str(s) => Some(owned(s.as_str())),
        MetaValue::Path(segs) => {
            if table.is_none() && segs.len() > 0 {
                assert(segs@.map_values(|x: String| x@).last() == segs@.last()@);
                Some(owned(segs[segs.len() - 1].as_str()))
            } else {
                table
            }
        },
        _ => table,
    }
}

/// The table after reading a node's attribute items.
fn read_node_items(items: &Vec<MetaItem>, table: Option<String>) -> (r: Option<String>)
    ensures
        r matches Some(t) ==> node_items(items_view(items@), opt_view(table)) == Some(t@),
        r is None ==> node_items(items_view(items@), opt_view(table)) is None,
{
    let ghost iv = items_view(items@);
    let mut i: usize = 0;
    assert(iv.skip(0) =~= iv);
    while i < items.len()
        invariant
            0 <= i <= items@.len(),
            iv == items_view(items@),
            node_items(iv, opt_view(table)) == node_items(iv.skip(i as int), opt_view(table)),
        decreases items@.len() - i,
    {
        let it = &items[i];
        assert(iv.skip(i as int)[0] == it@);
        assert(iv.skip(i as int).drop_first() =~= iv.skip(i + 1));
        if str_eq(it.key.as_str(), "table") {
            if i + 1 < items.len() {
                return table;
            } else {
                return read_table_value(&it.value, table);
            }
        } else if matches!(it.value, MetaValue::Absent) {
            i += 1;
        } else {
            return table;
        }
    }
    assert(iv.skip(i as int) =~= Seq::<MetaItemView>::empty());
    table
}

/// The table after reading an edge's attribute items, or the error.
fn read_edge_items(items: &Vec<MetaItem>, table: Option<String>) -> (r: Result<Option<String>, DeriveError>)
    ensures
        match r {
            Ok(Some(t)) => edge_items(items_view(items@), opt_view(table)) == Ok::<Option<Seq<char>>, DeriveError>(Some(t@)),
            Ok(None) => edge_items(items_view(items@), opt_view(table)) == Ok::<Option<Seq<char>>, DeriveError>(None),
            Err(e) => edge_items(items_view(items@), opt_view(table)) == Err::<Option<Seq<char>>, DeriveError>(e),
        },
{
    let ghost iv = items_view(items@);
    if items.len() == 0 {
        return Ok(table);
    }
    let it = &items[0];
    assert(iv[0] == it@);
    if str_eq(it.key.as_str(), "table") {
        match &it.value {
            MetaValue::Absent => Err(DeriveError::ExpectedEquals),
            MetaValue::List => Err(DeriveError::ExpectedEquals),
            v => {
                if items.len() > 1 {
                    Ok(table)
                } else {
                    Ok(read_table_value(v, table))
                }
            },
        }
    } else if str_eq(it.key.as_str(), "from") || str_eq(it.key.as_str(), "to") {
        Err(DeriveError::LegacyEndpoints)
    } else {
        Err(DeriveError::UnsupportedOption)
    }
}

/// The role after reading a field's attribute items, or the error.
fn read_role_items(items: &Vec<MetaItem>, initial: Option<Role>) -> (r: Result<Option<Role>, DeriveError>)
    ensures
        r == role_items(items_view(items@), initial),
{
    let ghost iv = items_view(items@);
    let mut role = initial;
    let mut i: usize = 0;
    assert(iv.skip(0) =~= iv);
    while i < items.len()
        invariant
            0 <= i <= items@.len(),
            iv == items_view(items@),
            role_items(iv, initial) == role_items(iv.skip(i as int), role),
        decreases items@.len() - i,
    {
        let it = &items[i];
        assert(iv.skip(i as int)[0] == it@);
        assert(iv.skip(i as int).drop_first() =~= iv.skip(i + 1));
        if str_eq(it.key.as_str(), "source") {
            if role.is_some() {
                return Err(DeriveError::DuplicateSource);
            } else if matches!(it.value, MetaValue::Absent) {
                role = Some(Role::Source);
            } else {
                return Err(DeriveError::ExpectedComma);
            }
        } else if str_eq(it.key.as_str(), "target") {
            if role.is_some() {
                return Err(DeriveError::DuplicateTarget);
            } else if matches!(it.value, MetaValue::Absent) {
                role = Some(Role::Target);
            } else {
                return Err(DeriveError::ExpectedComma);
            }
        } else {
            return Err(DeriveError::UnsupportedFieldOption);
        }
        i += 1;
    }
    assert(iv.skip(i as int) =~= Seq::<MetaItemView>::empty());
    Ok(role)
}

/// The table named by the `junction` attributes of a node.
fn read_node_table(attrs: &Vec<Attribute>) -> (r: Option<String>)
    ensures
        opt_view(r) == node_table(junction_attrs(attrs@)),
{
    let mut table: Option<String> = None;
    let mut i: usize = 0;
    while i < attrs.len()
        invariant
            0 <= i <= attrs@.len(),
            opt_view(table) == node_table(junction_attrs(attrs@.take(i as int))),
        decreases attrs@.len() - i,
    {
        assert(attrs@.take(i + 1).drop_last() =~= attrs@.take(i as int));
        assert(attrs@.take(i + 1).last() == attrs@[i as int]);
        let a = &attrs[i];
        proof {
            let j = junction_attrs(attrs@.take(i as int));
            if a.path@ == "junction"@ {
                assert(junction_attrs(attrs@.take(i + 1)) == j.push((a.form, items_view(a.items@))));
                assert(j.push((a.form, items_view(a.items@))).drop_last() =~= j);
            } else {
                assert(junction_attrs(attrs@.take(i + 1)) == j);
            }
        }
        if str_eq(a.path.as_str(), "junction") && a.form == AttrForm::List {
            let t = read_node_items(&a.items, table);
            table = t;
        }
        i += 1;
    }
    assert(attrs@.take(attrs@.len() as int) =~= attrs@);
    table
}

/// The table named by the `junction` attributes of an edge, or the error.
fn read_edge_table(attrs: &Vec<Attribute>) -> (r: Result<Option<String>, DeriveError>)
    ensures
        match r {
            Ok(t) => edge_table(junction_attrs(attrs@)) == Ok::<Option<Seq<char>>, DeriveError>(opt_view(t)),
            Err(e) => edge_table(junction_attrs(attrs@)) == Err::<Option<Seq<char>>, DeriveError>(e),
        },
{
    let mut table: Option<String> = None;
    let mut i: usize = 0;
    while i < attrs.len()
        invariant
            0 <= i <= attrs@.len(),
            edge_table(junction_attrs(attrs@.take(i as int))) == Ok::<Option<Seq<char>>, DeriveError>(opt_view(table)),
        decreases attrs@.len() - i,
    {
        assert(attrs@.take(i + 1).drop_last() =~= attrs@.take(i as int));
        assert(attrs@.take(i + 1).last() == attrs@[i as int]);
        let a = &attrs[i];
        proof {
            let j = junction_attrs(attrs@.take(i as int));
            if a.path@ == "junction"@ {
                assert(junction_attrs(attrs@.take(i + 1)) == j.push((a.form, items_view(a.items@))));
                assert(j.push((a.form, items_view(a.items@))).drop_last() =~= j);
            } else {
                assert(junction_attrs(attrs@.take(i + 1)) == j);
            }
        }
        if str_eq(a.path.as_str(), "junction") {
            let r = if a.form == AttrForm::List {
                read_edge_items(&a.items, table)
            } else if a.form == AttrForm::Path {
                Err(DeriveError::ExpectedArguments)
            } else {
                Err(DeriveError::ExpectedParentheses)
            };
            match r {
                Ok(t) => {
                    table = t;
                },
                Err(e) => {
                    proof {
                        lemma_edge_table_err(junction_attrs(attrs@), junction_attrs(attrs@.take(i + 1)).len() as int, attrs@, i + 1);
                    }
                    return Err(e);
                },
            }
        }
        i += 1;
    }
    assert(attrs@.take(attrs@.len() as int) =~= attrs@);
    Ok(table)
}

/// The `junction` attributes of a prefix are a prefix of the `junction` attributes.
proof fn lemma_junction_prefix(attrs: Seq<Attribute>, n: int)
    requires
        0 <= n <= attrs.len(),
    ensures
        junction_attrs(attrs.take(n)) == junction_attrs(attrs).take(junction_attrs(attrs.take(n)).len() as int),
        junction_attrs(attrs.take(n)).len() <= junction_attrs(attrs).len(),
    decreases attrs.len(),
{
    if n == attrs.len() {
        assert(attrs.take(n) =~= attrs);
        assert(junction_attrs(attrs).take(junction_attrs(attrs).len() as int) =~= junction_attrs(attrs));
    } else {
        assert(attrs.drop_last().take(n) =~= attrs.take(n));
        lemma_junction_prefix(attrs.drop_last(), n);
        let j = junction_attrs(attrs.drop_last());
        let k = junction_attrs(attrs.take(n)).len() as int;
        if attrs.last().path@ == "junction"@ {
            assert(j.push((attrs.last().form, items_view(attrs.last().items@))).take(k) =~= j.take(k));
        }
    }
}

/// Once reading a prefix of the attributes fails, reading them all fails the same way.
proof fn lemma_edge_table_err(all: Seq<(AttrForm, Seq<MetaItemView>)>, k: int, attrs: Seq<Attribute>, n: int)
    requires
        0 <= n <= attrs.len(),
        all == junction_attrs(attrs),
        k == junction_attrs(attrs.take(n)).len(),
        edge_table(junction_attrs(attrs.take(n))) is Err,
    ensures
        edge_table(all) == edge_table(junction_attrs(attrs.take(n))),
{
    lemma_junction_prefix(attrs, n);
    lemma_edge_table_err_prefix(all, k);
}

/// Once reading a prefix of the attributes fails, reading them all fails the same way.
proof fn lemma_edge_table_err_prefix(all: Seq<(AttrForm, Seq<MetaItemView>)>, k: int)
    requires
        0 <= k <= all.len(),
        edge_table(all.take(k)) is Err,
    ensures
        edge_table(all) == edge_table(all.take(k)),
    decreases all.len(),
{
    if k == all.len() {
        assert(all.take(k) =~= all);
    } else {
        assert(all.drop_last().take(k) =~= all.take(k));
        lemma_edge_table_err_prefix(all.drop_last(), k);
    }
}

/// Once reading a prefix of the attributes fails, reading them all fails the same way.
proof fn lemma_field_role_err_prefix(all: Seq<(AttrForm, Seq<MetaItemView>)>, k: int)
    requires
        0 <= k <= all.len(),
        field_role(all.take(k)) is Err,
    ensures
        field_role(all) == field_role(all.take(k)),
    decreases all.len(),
{
    if k == all.len() {
        assert(all.take(k) =~= all);
    } else {
        assert(all.drop_last().take(k) =~= all.take(k));
        lemma_field_role_err_prefix(all.drop_last(), k);
    }
}

/// The role the `junction` attributes of a field give it, or the error.
fn read_field_role(attrs: &Vec<Attribute>) -> (r: Result<Option<Role>, DeriveError>)
    ensures
        r == field_role(junction_attrs(attrs@)),
{
    let mut role: Option<Role> = None;
    let mut i: usize = 0;
    while i < attrs.len()
        invariant
            0 <= i <= attrs@.len(),
            field_role(junction_attrs(attrs@.take(i as int))) == Ok::<Option<Role>, DeriveError>(role),
        decreases attrs@.len() - i,
    {
        assert(attrs@.take(i + 1).drop_last() =~= attrs@.take(i as int));
        assert(attrs@.take(i + 1).last() == attrs@[i as int]);
        let a = &attrs[i];
        proof {
            let j = junction_attrs(attrs@.take(i as int));
            if a.path@ == "junction"@ {
                assert(junction_attrs(attrs@.take(i + 1)) == j.push((a.form, items_view(a.items@))));
                assert(j.push((a.form, items_view(a.items@))).drop_last() =~= j);
            } else {
                assert(junction_attrs(attrs@.take(i + 1)) == j);
            }
        }
        if str_eq(a.path.as_str(), "junction") {
            let r = if a.form == AttrForm::List {
                read_role_items(&a.items, role)
            } else if a.form == AttrForm::Path {
                Err(DeriveError::ExpectedArguments)
            } else {
                Err(DeriveError::ExpectedParentheses)
            };
            match r {
                Ok(t) => {
                    role = t;
                },
                Err(e) => {
                    proof {
                        lemma_junction_prefix(attrs@, i + 1);
                        lemma_field_role_err_prefix(junction_attrs(attrs@), junction_attrs(attrs@.take(i + 1)).len() as int);
                    }
                    return Err(e);
                },
            }
        }
        i += 1;
    }
    assert(attrs@.take(attrs@.len() as int) =~= attrs@);
    Ok(role)
}

// ---------------------------------------------------------------------------
// Endpoint types
// ---------------------------------------------------------------------------

/// The first type among generic arguments.
pub open spec fn first_type_arg(args: Seq<ArgView>) -> Option<TypeView>
    decreases args.len(),
{
    if args.len() == 0 {
        None
    } else {
        match args[0] {
            ArgView::Type(t) => Some(t),
            ArgView::Other(_) => first_type_arg(args.drop_first()),
        }
    }
}

/// The node type an endpoint field's type refers to: the first type argument of a
/// `SimpleId<..>` or `Link<..>`, looked for through `Option<..>` and `Vec<..>` (their type
/// arguments tried in order); judged by the last path segment.
pub open spec fn inner_type(t: TypeView) -> Option<TypeView>
    decreases t, 0nat,
{
    match t {
        TypeView::Path(segs) => if segs.len() == 0 {
            None
        } else {
            let seg = segs.last();
            if seg.ident == "SimpleId"@ || seg.ident == "Link"@ {
                first_type_arg(seg.args)
            } else if seg.ident == "Option"@ || seg.ident == "Vec"@ {
                proof {
                    assert(decreases_to!(t => segs));
                    assert(decreases_to!(segs => segs[segs.len() - 1]));
                    assert(decreases_to!(seg => seg.args));
                }
                first_inner(seg.args)
            } else {
                None
            }
        },
        TypeView::Other(_) => None,
    }
}

/// The node type found in the first type argument that has one.
pub open spec fn first_inner(args: Seq<ArgView>) -> Option<TypeView>
    decreases args, 1nat,
{
    if args.len() == 0 {
        None
    } else {
        match args[0] {
            ArgView::Type(t) => {
                proof {
                    assert(decreases_to!(args => args[0]));
                }
                match inner_type(t) {
                    Some(f) => Some(f),
                    None => {
                        proof {
                            assert(decreases_to!(args => args.subrange(1, args.len() as int)));
                        }
                        first_inner(args.drop_first())
                    },
                }
            },
            ArgView::Other(_) => {
                proof {
                    assert(decreases_to!(args => args.subrange(1, args.len() as int)));
                }
                first_inner(args.drop_first())
            },
        }
    }
}

/// The value of one generic argument.
pub open spec fn arg_view(a: GenericArg) -> ArgView {
    match a {
        GenericArg::Type(t) => ArgView::Type(type_view(t)),
        GenericArg::Other(s) => ArgView::Other(s@),
    }
}

/// The values of a list of generic arguments, one by one.
proof fn lemma_args_view(a: Seq<GenericArg>)
    ensures
        args_view(a).len() == a.len(),
        forall|k: int| 0 <= k < a.len() ==> #[trigger] args_view(a)[k] == arg_view(a[k]),
    decreases a.len(),
{
    if a.len() > 0 {
        lemma_args_view(a.drop_last());
    }
}

/// The values of a list of path segments, one by one.
proof fn lemma_segs_view(s: Seq<TypeSegment>)
    ensures
        segs_view(s).len() == s.len(),
        forall|k: int| 0 <= k < s.len() ==> #[trigger] segs_view(s)[k] == (SegmentView {
            ident: s[k].ident@,
            args: args_view(s[k].args@),
        }),
    decreases s.len(),
{
    if s.len() > 0 {
        lemma_segs_view(s.drop_last());
    }
}

/// The first type among generic arguments.
fn first_type_arg_of(args: &Vec<GenericArg>) -> (r: Option<TypeExpr>)
    ensures
        match r {
            Some(t) => first_type_arg(args_view(args@)) == Some(type_view(t)),
            None => first_type_arg(args_view(args@)) is None,
        },
{
    let ghost av = args_view(args@);
    proof {
        lemma_args_view(args@);
    }
    let mut k: usize = 0;
    assert(av.skip(0) =~= av);
    while k < args.len()
        invariant
            0 <= k <= args@.len(),
            av == args_view(args@),
            av.len() == args@.len(),
            forall|j: int| 0 <= j < args@.len() ==> #[trigger] av[j] == arg_view(args@[j]),
            first_type_arg(av) == first_type_arg(av.skip(k as int)),
        decreases args@.len() - k,
    {
        assert(av.skip(k as int)[0] == av[k as int]);
        assert(av.skip(k as int).drop_first() =~= av.skip(k + 1));
        match &args[k] {
            GenericArg::Type(t) => {
                return Some(t.duplicate());
            },
            GenericArg::Other(_) => {},
        }
        k += 1;
    }
    assert(av.skip(k as int) =~= Seq::<ArgView>::empty());
    None
}

/// The node type an endpoint field's type refers to (see `inner_type`).
pub fn endpoint_node_type(ty: &TypeExpr) -> (r: Option<TypeExpr>)
    ensures
        match r {
            Some(t) => inner_type(type_view(*ty)) == Some(type_view(t)),
            None => inner_type(type_view(*ty)) is None,
        },
    decreases ty, 0nat,
{
    match ty {
        TypeExpr::Path(segs) => {
            proof {
                lemma_segs_view(segs@);
            }
            if segs.len() == 0 {
                return None;
            }
            let seg = &segs[segs.len() - 1];
            assert(segs_view(segs@).last() == segs_view(segs@)[segs@.len() - 1]);
            if str_eq(seg.ident.as_str(), "SimpleId") || str_eq(seg.ident.as_str(), "Link") {
                first_type_arg_of(&seg.args)
            } else if str_eq(seg.ident.as_str(), "Option") || str_eq(seg.ident.as_str(), "Vec") {
                proof {
                    assert(decreases_to!(*ty => ty->Path_0));
                    assert(decreases_to!(ty->Path_0 => (ty->Path_0)@));
                    assert(decreases_to!((ty->Path_0)@ => (ty->Path_0)@[segs@.len() - 1]));
                    assert(decreases_to!((ty->Path_0)@[segs@.len() - 1] => (ty->Path_0)@[segs@.len() - 1].args));
                }
                first_inner_of(&seg.args)
            } else {
                None
            }
        },
        TypeExpr::Other(_) => None,
    }
}

/// The node type found in the first type argument that has one.
fn first_inner_of(args: &Vec<GenericArg>) -> (r: Option<TypeExpr>)
    ensures
        match r {
            Some(t) => first_inner(args_view(args@)) == Some(type_view(t)),
            None => first_inner(args_view(args@)) is None,
        },
    decreases args, 1nat,
{
    let ghost av = args_view(args@);
    proof {
        lemma_args_view(args@);
    }
    let mut k: usize = 0;
    assert(av.skip(0) =~= av);
    while k < args.len()
        invariant
            0 <= k <= args@.len(),
            av == args_view(args@),
            av.len() == args@.len(),
            forall|j: int| 0 <= j < args@.len() ==> #[trigger] av[j] == arg_view(args@[j]),
            first_inner(av) == first_inner(av.skip(k as int)),
        decreases args@.len() - k,
    {
        assert(av.skip(k as int)[0] == av[k as int]);
        assert(av.skip(k as int).drop_first() =~= av.skip(k + 1));
        match &args[k] {
            GenericArg::Type(t) => {
                proof {
                    assert(decreases_to!(*args => args@));
                    assert(decreases_to!(args@ => args@[k as int]));
                    assert(decreases_to!(args@[k as int] => args@[k as int]->Type_0));
                }
                match endpoint_node_type(t) {
                    Some(f) => {
                        return Some(f);
                    },
                    None => {},
                }
            },
            GenericArg::Other(_) => {},
        }
        k += 1;
    }
    assert(av.skip(k as int) =~= Seq::<ArgView>::empty());
    None
}

// ---------------------------------------------------------------------------
// Expansions
// ---------------------------------------------------------------------------

/// An identifier without its raw prefix: `r#in` gives `in` (every leading `r#` removed).
pub open spec fn strip_raw(s: Seq<char>) -> Seq<char>
    decreases s.len(),
{
    if s.len() >= 2 && s[0] == 'r' && s[1] == '#' {
        strip_raw(s.subrange(2, s.len() as int))
    } else {
        s
    }
}

/// An identifier without its raw prefix.
pub fn trim_raw_ident(ident: &str) -> (r: String)
    ensures
        r@ == strip_raw(ident@),
{
    let v = chars_of(ident);
    let mut a: usize = 0;
    assert(v@.subrange(0, v@.len() as int) =~= v@);
    while a < v.len() && a + 1 < v.len() && v[a] == 'r' && v[a + 1] == '#'
        invariant
            a <= v@.len(),
            v@ == ident@,
            strip_raw(ident@) == strip_raw(v@.subrange(a as int, v@.len() as int)),
        decreases v@.len() - a,
    {
        assert(v@.subrange(a as int, v@.len() as int).subrange(2, v@.len() - a) =~= v@.subrange(a + 2, v@.len() as int));
        a += 2;
    }
    string_from_chars(slice_vec(&v, a, v.len()).as_slice())
}

/// A typed schema column: the field it stands for, the field's type, and the table and
/// column names it is built with.
#[derive(Debug)]
pub struct Column {
    pub field: String,
    pub ty: TypeExpr,
    pub table: String,
    pub column: String,
}

/// Mathematical value of a [`Column`].
pub struct ColumnView {
    pub field: Seq<char>,
    pub ty: TypeView,
    pub table: Seq<char>,
    pub column: Seq<char>,
}

/// The values of a list of columns.
pub open spec fn columns_view(v: Seq<Column>) -> Seq<ColumnView> {
    v.map_values(|c: Column| ColumnView { field: c.field@, ty: type_view(c.ty), table: c.table@, column: c.column@ })
}

/// A path segment without generic arguments.
pub open spec fn plain_segment(ident: Seq<char>) -> SegmentView {
    SegmentView { ident, args: Seq::empty() }
}

/// `junction_rs::id::SimpleId<T>` for a type `T`.
pub open spec fn simple_id_view(t: TypeView) -> TypeView {
    TypeView::Path(seq![
        plain_segment("junction_rs"@),
        plain_segment("id"@),
        SegmentView { ident: "SimpleId"@, args: seq![ArgView::Type(t)] },
    ])
}

/// The id type given to a struct that declares no `id` field: `junction_rs::id::SimpleId<Name>`.
pub open spec fn default_id_type(name: Seq<char>) -> TypeView {
    simple_id_view(TypeView::Path(seq![plain_segment(name)]))
}

/// `junction_rs::id::SimpleId<inner>`.
fn simple_id_of(inner: TypeExpr) -> (r: TypeExpr)
    ensures
        type_view(r) == simple_id_view(type_view(inner)),
{
    let ghost gi = inner;
    let args = vec![GenericArg::Type(inner)];
    proof {
        lemma_args_view(args@);
    }
    assert(args_view(args@) =~= seq![ArgView::Type(type_view(gi))]);
    let ghost ga = args@;
    let segs = vec![
        TypeSegment { ident: owned("junction_rs"), args: Vec::new() },
        TypeSegment { ident: owned("id"), args: Vec::new() },
        TypeSegment { ident: owned("SimpleId"), args },
    ];
    assert(args_view(Seq::<GenericArg>::empty()) =~= Seq::<ArgView>::empty());
    proof {
        lemma_segs_view(segs@);
        assert(segs@[2].args@ == ga);
    }
    assert(segs_view(segs@) =~= seq![
        plain_segment("junction_rs"@),
        plain_segment("id"@),
        SegmentView { ident: "SimpleId"@, args: seq![ArgView::Type(type_view(gi))] },
    ]);
    TypeExpr::Path(segs)
}

/// `junction_rs::id::SimpleId<name>`.
fn simple_id_type(name: &str) -> (r: TypeExpr)
    ensures
        type_view(r) == default_id_type(name@),
{
    let inner_segs = vec![TypeSegment { ident: owned(name), args: Vec::new() }];
    assert(args_view(Seq::<GenericArg>::empty()) =~= Seq::<ArgView>::empty());
    proof {
        lemma_segs_view(inner_segs@);
    }
    assert(segs_view(inner_segs@) =~= seq![plain_segment(name@)]);
    simple_id_of(TypeExpr::Path(inner_segs))
}

// ---------------------------------------------------------------------------
// Deriving `Node`
// ---------------------------------------------------------------------------

/// An associated function a derive adds to the struct for making its ids.
#[derive(Debug, Clone, Copy, PartialEq, Eq, Structural)]
pub enum IdConstructor {
    /// `create_simple_id()`: a fresh random `SimpleId<Self>`.
    CreateSimpleId,
    /// `from_uuid(uuid)`: the `SimpleId<Self>` of a given UUID.
    FromUuid,
}

impl IdConstructor {
    /// The function's name.
    pub fn name(&self) -> (r: &'static str)
        ensures
            self is CreateSimpleId ==> r@ == "create_simple_id"@,
            self is FromUuid ==> r@ == "from_uuid"@,
    {
        match self {
            IdConstructor::CreateSimpleId => "create_simple_id",
            IdConstructor::FromUuid => "from_uuid",
        }
    }
}

/// The id constructors every derived node and edge gets, in order.
pub open spec fn id_constructors() -> Seq<IdConstructor> {
    seq![IdConstructor::CreateSimpleId, IdConstructor::FromUuid]
}

/// The id constructors, as a list.
fn id_constructor_list() -> (r: Vec<IdConstructor>)
    ensures
        r@ == id_constructors(),
{
    let r = vec![IdConstructor::CreateSimpleId, IdConstructor::FromUuid];
    assert(r@ =~= id_constructors());
    r
}

/// What deriving `Node` gives: the table, the id column's type, the schema columns (the id
/// column first, then one per other field, in order), and the id constructors added to the
/// struct.
#[derive(Debug)]
pub struct NodeExpansion {
    pub name: String,
    pub table: String,
    pub id_type: TypeExpr,
    pub columns: Vec<Column>,
    pub constructors: Vec<IdConstructor>,
}

/// The table of a node: the one its attributes name, else its name in snake case.
pub open spec fn node_table_name(def: StructDef) -> Seq<char> {
    match node_table(junction_attrs(def.attrs@)) {
        Some(t) => t,
        None => snake_case(def.name@),
    }
}

/// The id type (if an `id` field declares one) and the other columns of a node, from its
/// fields in order. A node column is named by the field's identifier as written.
pub open spec fn node_fields(fields: Seq<FieldDecl>, table: Seq<char>) -> (Option<TypeView>, Seq<ColumnView>)
    decreases fields.len(),
{
    if fields.len() == 0 {
        (None, Seq::empty())
    } else {
        let (id, cols) = node_fields(fields.drop_last(), table);
        let f = fields.last();
        if strip_raw(f.ident@) == "id"@ {
            (Some(type_view(f.ty)), cols)
        } else {
            (id, cols.push(ColumnView { field: f.ident@, ty: type_view(f.ty), table, column: f.ident@ }))
        }
    }
}

/// The columns of a struct: the `id` column (of the declared id type, else the default),
/// then the others.
pub open spec fn with_id_column(name: Seq<char>, table: Seq<char>, id: Option<TypeView>, cols: Seq<ColumnView>) -> Seq<ColumnView> {
    seq![ColumnView {
        field: "id"@,
        ty: match id {
            Some(t) => t,
            None => default_id_type(name),
        },
        table,
        column: "id"@,
    }] + cols
}

/// The id type and columns of a node.
pub open spec fn node_parts(def: StructDef) -> (Option<TypeView>, Seq<ColumnView>) {
    if def.named_fields {
        node_fields(def.fields@, node_table_name(def))
    } else {
        (None, Seq::empty())
    }
}

/// A column for a field.
fn make_column(f: &FieldDecl, table: &str, column: &str) -> (r: Column)
    ensures
        r.field@ == f.ident@,
        type_view(r.ty) == type_view(f.ty),
        r.table@ == table@,
        r.column@ == column@,
{
    Column { field: owned(f.ident.as_str()), ty: f.ty.duplicate(), table: owned(table), column: owned(column) }
}

/// The id column.
fn id_column(name: &str, table: &str, id: Option<TypeExpr>) -> (r: Column)
    ensures
        r.field@ == "id"@,
        r.column@ == "id"@,
        r.table@ == table@,
        type_view(r.ty) == (match id {
            Some(t) => type_view(t),
            None => default_id_type(name@),
        }),
{
    let ty = match id {
        Some(t) => t,
        None => simple_id_type(name),
    };
    Column { field: owned("id"), ty, table: owned(table), column: owned("id") }
}

/// Derives `Node` for a struct. The table is the one named by `#[junction(table = ..)]`
/// (a string, or a path's last segment), else the struct's name in snake case; attribute
/// items that cannot be read are passed over. The schema has an `id` column, of the `id`
/// field's type where there is one (else `SimpleId<Name>`), then a column per other field.
pub fn derive_node(def: &StructDef) -> (r: NodeExpansion)
    ensures
        r.name@ == def.name@,
        r.table@ == node_table_name(*def),
        type_view(r.id_type) == with_id_column(def.name@, node_table_name(*def), node_parts(*def).0, node_parts(*def).1)[0].ty,
        columns_view(r.columns@) == with_id_column(def.name@, node_table_name(*def), node_parts(*def).0, node_parts(*def).1),
        r.constructors@ == id_constructors(),
{
    let table = match read_node_table(&def.attrs) {
        Some(t) => t,
        None => default_table_name(def.name.as_str()),
    };
    let mut id: Option<TypeExpr> = None;
    let mut cols: Vec<Column> = Vec::new();
    if def.named_fields {
        let mut i: usize = 0;
        assert(def.fields@.take(0) =~= Seq::<FieldDecl>::empty());
        while i < def.fields.len()
            invariant
                0 <= i <= def.fields@.len(),
                table@ == node_table_name(*def),
                (match id {
                    Some(t) => Some(type_view(t)),
                    None => None::<TypeView>,
                }, columns_view(cols@)) == node_fields(def.fields@.take(i as int), table@),
            decreases def.fields@.len() - i,
        {
            let f = &def.fields[i];
            assert(def.fields@.take(i + 1).drop_last() =~= def.fields@.take(i as int));
            assert(def.fields@.take(i + 1).last() == *f);
            let norm = trim_raw_ident(f.ident.as_str());
            if str_eq(norm.as_str(), "id") {
                id = Some(f.ty.duplicate());
            } else {
                let c = make_column(f, table.as_str(), f.ident.as_str());
                let ghost before = columns_view(cols@);
                cols.push(c);
                assert(columns_view(cols@) =~= before.push(
                    ColumnView { field: f.ident@, ty: type_view(f.ty), table: table@, column: f.ident@ },
                ));
            }
            i += 1;
        }
        assert(def.fields@.take(def.fields@.len() as int) =~= def.fields@);
    } else {
        assert(columns_view(cols@) =~= Seq::<ColumnView>::empty());
    }
    let id_col = id_column(def.name.as_str(), table.as_str(), id);
    let id_type = id_col.ty.duplicate();
    let ghost rest = columns_view(cols@);
    let ghost idv = ColumnView { field: id_col.field@, ty: type_view(id_col.ty), table: id_col.table@, column: id_col.column@ };
    let mut columns: Vec<Column> = vec![id_col];
    columns.append(&mut cols);
    assert(columns_view(columns@) =~= seq![idv] + rest);
    NodeExpansion { name: owned(def.name.as_str()), table, id_type, columns, constructors: id_constructor_list() }
}

// ---------------------------------------------------------------------------
// Deriving `Edge`
// ---------------------------------------------------------------------------

/// What reading an edge's fields gathers: the id type, the source and target (node type and
/// field name), and the columns other than `id`.
pub struct EdgeAcc {
    pub id: Option<TypeView>,
    pub source: Option<(TypeView, Seq<char>)>,
    pub target: Option<(TypeView, Seq<char>)>,
    pub cols: Seq<ColumnView>,
}

/// Reading one more field of an edge. An edge column is named by the field's identifier
/// without its raw prefix. A field marked `source` (or `target`) must be the only one so
/// marked, and its type must name a node type.
pub open spec fn edge_field_step(acc: EdgeAcc, f: FieldDecl, table: Seq<char>) -> Result<EdgeAcc, DeriveError> {
    match field_role(junction_attrs(f.attrs@)) {
        Err(e) => Err(e),
        Ok(role) => {
            let norm = strip_raw(f.ident@);
            let id = if norm == "id"@ {
                Some(type_view(f.ty))
            } else {
                acc.id
            };
            let cols = if norm == "id"@ {
                acc.cols
            } else {
                acc.cols.push(ColumnView { field: f.ident@, ty: type_view(f.ty), table, column: norm })
            };
            match role {
                Some(Role::Source) => if acc.source is Some {
                    Err(DeriveError::MultipleSources)
                } else {
                    match inner_type(type_view(f.ty)) {
                        Some(t) => Ok(EdgeAcc { id, source: Some((t, norm)), target: acc.target, cols }),
                        None => Err(DeriveError::UnknownSourceType),
                    }
                },
                Some(Role::Target) => if acc.target is Some {
                    Err(DeriveError::MultipleTargets)
                } else {
                    match inner_type(type_view(f.ty)) {
                        Some(t) => Ok(EdgeAcc { id, source: acc.source, target: Some((t, norm)), cols }),
                        None => Err(DeriveError::UnknownTargetType),
                    }
                },
                None => Ok(EdgeAcc { id, source: acc.source, target: acc.target, cols }),
            }
        },
    }
}

/// Reading an edge's fields in order; the first error stops the reading.
pub open spec fn edge_fields(fields: Seq<FieldDecl>, table: Seq<char>) -> Result<EdgeAcc, DeriveError>
    decreases fields.len(),
{
    if fields.len() == 0 {
        Ok(EdgeAcc { id: None, source: None, target: None, cols: Seq::empty() })
    } else {
        match edge_fields(fields.drop_last(), table) {
            Err(e) => Err(e),
            Ok(acc) => edge_field_step(acc, fields.last(), table),
        }
    }
}

proof fn lemma_edge_fields_err(fields: Seq<FieldDecl>, table: Seq<char>, n: int)
    requires
        0 <= n <= fields.len(),
        edge_fields(fields.take(n), table) is Err,
    ensures
        edge_fields(fields, table) == edge_fields(fields.take(n), table),
    decreases fields.len(),
{
    if n == fields.len() {
        assert(fields.take(n) =~= fields);
    } else {
        assert(fields.drop_last().take(n) =~= fields.take(n));
        lemma_edge_fields_err(fields.drop_last(), table, n);
    }
}

/// Mathematical value of an [`EdgeExpansion`].
pub struct EdgeExpansionView {
    pub name: Seq<char>,
    pub table: Seq<char>,
    pub id_type: TypeView,
    pub source_type: TypeView,
    pub target_type: TypeView,
    pub source_field: Seq<char>,
    pub target_field: Seq<char>,
    pub columns: Seq<ColumnView>,
}

/// Whether some column is stored under the given column name.
pub open spec fn has_column(cols: Seq<ColumnView>, column: Seq<char>) -> bool {
    exists|k: int| 0 <= k < cols.len() && cols[k].column == column
}

/// The column of an endpoint that the struct leaves out: field `field`, column `column`, of
/// type `SimpleId<Node>` for the endpoint's node type.
pub open spec fn endpoint_column(field: Seq<char>, column: Seq<char>, table: Seq<char>, node: TypeView) -> ColumnView {
    ColumnView { field, ty: simple_id_view(node), table, column }
}

/// The columns of an edge: its own columns, then an `in` column (field `r#in`) when no field
/// gives one, then an `out` column (field `r#out`) likewise, so that every derived edge has
/// `id`, `in` and `out` columns.
pub open spec fn with_endpoint_columns(cols: Seq<ColumnView>, table: Seq<char>, source: TypeView, target: TypeView) -> Seq<ColumnView> {
    let ins = if has_column(cols, "in"@) {
        Seq::empty()
    } else {
        seq![endpoint_column("r#in"@, "in"@, table, source)]
    };
    let outs = if has_column(cols, "out"@) {
        Seq::empty()
    } else {
        seq![endpoint_column("r#out"@, "out"@, table, target)]
    };
    cols + ins + outs
}

/// What deriving `Edge` on a struct gives, or the error it reports.
pub open spec fn edge_result(def: StructDef) -> Result<EdgeExpansionView, DeriveError> {
    match edge_table(junction_attrs(def.attrs@)) {
        Err(e) => Err(e),
        Ok(named) => {
            let table = match named {
                Some(t) => t,
                None => snake_case(def.name@),
            };
            let read = if def.named_fields {
                edge_fields(def.fields@, table)
            } else {
                Ok(EdgeAcc { id: None, source: None, target: None, cols: Seq::empty() })
            };
            match read {
                Err(e) => Err(e),
                Ok(acc) => match (acc.source, acc.target) {
                    (None, _) => Err(DeriveError::MissingSource),
                    (_, None) => Err(DeriveError::MissingTarget),
                    (Some(src), Some(tgt)) => {
                        let columns = with_endpoint_columns(
                            with_id_column(def.name@, table, acc.id, acc.cols),
                            table,
                            src.0,
                            tgt.0,
                        );
                        Ok(EdgeExpansionView {
                            name: def.name@,
                            table,
                            id_type: columns[0].ty,
                            source_type: src.0,
                            target_type: tgt.0,
                            source_field: src.1,
                            target_field: tgt.1,
                            columns,
                        })
                    },
                },
            }
        },
    }
}

/// What deriving `Edge` gives: the table, the id type, the source and target node types
/// with the names of their fields, the schema columns (`id` first), and the id constructors
/// added to the struct.
#[derive(Debug)]
pub struct EdgeExpansion {
    pub name: String,
    pub table: String,
    pub id_type: TypeExpr,
    pub source_type: TypeExpr,
    pub target_type: TypeExpr,
    pub source_field: String,
    pub target_field: String,
    pub columns: Vec<Column>,
    pub constructors: Vec<IdConstructor>,
}

/// The value of an edge expansion.
pub open spec fn edge_expansion_view(e: EdgeExpansion) -> EdgeExpansionView {
    EdgeExpansionView {
        name: e.name@,
        table: e.table@,
        id_type: type_view(e.id_type),
        source_type: type_view(e.source_type),
        target_type: type_view(e.target_type),
        source_field: e.source_field@,
        target_field: e.target_field@,
        columns: columns_view(e.columns@),
    }
}

/// An endpoint found so far: node type and field name.
pub open spec fn endpoint_view(e: Option<(TypeExpr, String)>) -> Option<(TypeView, Seq<char>)> {
    match e {
        Some((t, n)) => Some((type_view(t), n@)),
        None => None,
    }
}

/// Whether some column is stored under `column`.
fn has_column_named(cols: &Vec<Column>, column: &str) -> (r: bool)
    ensures
        r == has_column(columns_view(cols@), column@),
{
    let mut i: usize = 0;
    while i < cols.len()
        invariant
            0 <= i <= cols@.len(),
            forall|k: int| 0 <= k < i ==> columns_view(cols@)[k].column != column@,
        decreases cols@.len() - i,
    {
        if str_eq(cols[i].column.as_str(), column) {
            assert(columns_view(cols@)[i as int].column == column@);
            return true;
        }
        i += 1;
    }
    false
}

/// Derives `Edge` for a struct. The table is read as for a node, but the only option of
/// `#[junction(..)]` on the struct is `table`; fields marked `#[junction(source)]` and
/// `#[junction(target)]` give the endpoints: exactly one of each, whose type names the node
/// type (`SimpleId<T>`, `Link<T>`, possibly inside `Option` or `Vec`). Errors come in the
/// order the declaration is read.
pub fn derive_edge(def: &StructDef) -> (r: Result<EdgeExpansion, DeriveError>)
    ensures
        match r {
            Ok(e) => edge_result(*def) == Ok::<EdgeExpansionView, DeriveError>(edge_expansion_view(e))
                && e.constructors@ == id_constructors(),
            Err(err) => edge_result(*def) == Err::<EdgeExpansionView, DeriveError>(err),
        },
{
    let named = match read_edge_table(&def.attrs) {
        Ok(t) => t,
        Err(e) => {
            return Err(e);
        },
    };
    let table = match named {
        Some(t) => t,
        None => default_table_name(def.name.as_str()),
    };
    let mut id: Option<TypeExpr> = None;
    let mut source: Option<(TypeExpr, String)> = None;
    let mut target: Option<(TypeExpr, String)> = None;
    let mut cols: Vec<Column> = Vec::new();
    if def.named_fields {
        let mut i: usize = 0;
        assert(def.fields@.take(0) =~= Seq::<FieldDecl>::empty());
        assert(columns_view(cols@) =~= Seq::<ColumnView>::empty());
        while i < def.fields.len()
            invariant
                0 <= i <= def.fields@.len(),
                def.named_fields,
                edge_table(junction_attrs(def.attrs@)) matches Ok(n) && table@ == (match n {
                    Some(t) => t,
                    None => snake_case(def.name@),
                }),
                edge_fields(def.fields@.take(i as int), table@) == Ok::<EdgeAcc, DeriveError>(EdgeAcc {
                    id: match id {
                        Some(t) => Some(type_view(t)),
                        None => None::<TypeView>,
                    },
                    source: endpoint_view(source),
                    target: endpoint_view(target),
                    cols: columns_view(cols@),
                }),
            decreases def.fields@.len() - i,
        {
            let f = &def.fields[i];
            assert(def.fields@.take(i + 1).drop_last() =~= def.fields@.take(i as int));
            assert(def.fields@.take(i + 1).last() == *f);
            let role = match read_field_role(&f.attrs) {
                Ok(r) => r,
                Err(e) => {
                    proof {
                        lemma_edge_fields_err(def.fields@, table@, i + 1);
                    }
                    return Err(e);
                },
            };
            let norm = trim_raw_ident(f.ident.as_str());
            if str_eq(norm.as_str(), "id") {
                id = Some(f.ty.duplicate());
            } else {
                let c = make_column(f, table.as_str(), norm.as_str());
                let ghost before = columns_view(cols@);
                cols.push(c);
                assert(columns_view(cols@) =~= before.push(
                    ColumnView { field: f.ident@, ty: type_view(f.ty), table: table@, column: norm@ },
                ));
            }
            match role {
                Some(Role::Source) => {
                    if source.is_some() {
                        proof {
                            lemma_edge_fields_err(def.fields@, table@, i + 1);
                        }
                        return Err(DeriveError::MultipleSources);
                    }
                    match endpoint_node_type(&f.ty) {
                        Some(t) => {
                            source = Some((t, norm));
                        },
                        None => {
                            proof {
                                lemma_edge_fields_err(def.fields@, table@, i + 1);
                            }
                            return Err(DeriveError::UnknownSourceType);
                        },
                    }
                },
                Some(Role::Target) => {
                    if target.is_some() {
                        proof {
                            lemma_edge_fields_err(def.fields@, table@, i + 1);
                        }
                        return Err(DeriveError::MultipleTargets);
                    }
                    match endpoint_node_type(&f.ty) {
                        Some(t) => {
                            target = Some((t, norm));
                        },
                        None => {
                            proof {
                                lemma_edge_fields_err(def.fields@, table@, i + 1);
                            }
                            return Err(DeriveError::UnknownTargetType);
                        },
                    }
                },
                None => {},
            }
            i += 1;
        }
        assert(def.fields@.take(def.fields@.len() as int) =~= def.fields@);
    } else {
        assert(columns_view(cols@) =~= Seq::<ColumnView>::empty());
    }
    let (source_type, source_field) = match source {
        Some(s) => s,
        None => {
            return Err(DeriveError::MissingSource);
        },
    };
    let (target_type, target_field) = match target {
        Some(t) => t,
        None => {
            return Err(DeriveError::MissingTarget);
        },
    };
    let id_col = id_column(def.name.as_str(), table.as_str(), id);
    let id_type = id_col.ty.duplicate();
    let ghost rest = columns_view(cols@);
    let ghost idv = ColumnView { field: id_col.field@, ty: type_view(id_col.ty), table: id_col.table@, column: id_col.column@ };
    let mut columns: Vec<Column> = vec![id_col];
    columns.append(&mut cols);
    assert(columns_view(columns@) =~= seq![idv] + rest);
    let ghost base = columns_view(columns@);
    let has_in = has_column_named(&columns, "in");
    let has_out = has_column_named(&columns, "out");
    let ghost ins: Seq<ColumnView> = if has_in {
        Seq::empty()
    } else {
        seq![endpoint_column("r#in"@, "in"@, table@, type_view(source_type))]
    };
    if !has_in {
        let c = Column {
            field: owned("r#in"),
            ty: simple_id_of(source_type.duplicate()),
            table: owned(table.as_str()),
            column: owned("in"),
        };
        columns.push(c);
    }
    assert(columns_view(columns@) =~= base + ins);
    let ghost mid = columns_view(columns@);
    if !has_out {
        let c = Column {
            field: owned("r#out"),
            ty: simple_id_of(target_type.duplicate()),
            table: owned(table.as_str()),
            column: owned("out"),
        };
        columns.push(c);
    }
    assert(columns_view(columns@) =~= with_endpoint_columns(base, table@, type_view(source_type), type_view(target_type)));
    Ok(EdgeExpansion {
        name: owned(def.name.as_str()),
        table,
        id_type,
        source_type,
        target_type,
        source_field,
        target_field,
        columns,
        constructors: id_constructor_list(),
    })
}

/// The column that stands for a field, if any (the first such).
pub fn find_column<'a>(columns: &'a Vec<Column>, field: &str) -> (r: Option<&'a Column>)
    ensures
        r matches Some(c) ==> exists|k: int| 0 <= k < columns@.len() && columns@[k] == *c && c.field@ == field@,
        r is None ==> forall|k: int| 0 <= k < columns@.len() ==> columns@[k].field@ != field@,
{
    let mut i: usize = 0;
    while i < columns.len()
        invariant
            0 <= i <= columns@.len(),
            forall|k: int| 0 <= k < i ==> columns@[k].field@ != field@,
        decreases columns@.len() - i,
    {
        if str_eq(columns[i].field.as_str(), field) {
            return Some(&columns[i]);
        }
        i += 1;
    }
    None
}

impl NodeExpansion {
    /// The schema column of a field.
    pub fn column(&self, field: &str) -> (r: Option<&Column>)
        ensures
            r matches Some(c) ==> exists|k: int| 0 <= k < self.columns@.len() && self.columns@[k] == *c && c.field@ == field@,
            r is None ==> forall|k: int| 0 <= k < self.columns@.len() ==> self.columns@[k].field@ != field@,
    {
        find_column(&self.columns, field)
    }
}

impl EdgeExpansion {
    /// The schema column of a field.
    pub fn column(&self, field: &str) -> (r: Option<&Column>)
        ensures
            r matches Some(c) ==> exists|k: int| 0 <= k < self.columns@.len() && self.columns@[k] == *c && c.field@ == field@,
            r is None ==> forall|k: int| 0 <= k < self.columns@.len() ==> self.columns@[k].field@ != field@,
    {
        find_column(&self.columns, field)
    }

    /// The names of the source and target fields.
    pub fn endpoint_field_names(&self) -> (r: (&str, &str))
        ensures
            r.0@ == self.source_field@,
            r.1@ == self.target_field@,
    {
        (self.source_field.as_str(), self.target_field.as_str())
    }
}

/// A derived schema always starts with the `id` column of the struct's table, whether or
/// not the struct declares an `id` field, for nodes and for edges alike.
pub proof fn lemma_derived_schema_starts_with_id(def: StructDef)
    ensures
        ({
            let cols = with_id_column(def.name@, node_table_name(def), node_parts(def).0, node_parts(def).1);
            &&& cols[0].field == "id"@
            &&& cols[0].column == "id"@
            &&& cols[0].table == node_table_name(def)
        }),
        edge_result(def) matches Ok(e) ==> e.columns[0].field == "id"@ && e.columns[0].column == "id"@
            && e.columns[0].table == e.table,
{
}

/// Every derived edge has an `in` and an `out` column of its own table, whether the struct
/// declares those fields or omits them.
pub proof fn lemma_derived_edge_has_endpoint_columns(def: StructDef)
    ensures
        edge_result(def) matches Ok(e) ==> {
            &&& exists|k: int| 0 <= k < e.columns.len() && e.columns[k].column == "in"@ && e.columns[k].table == e.table
            &&& exists|k: int| 0 <= k < e.columns.len() && e.columns[k].column == "out"@ && e.columns[k].table == e.table
        },
{
    if let Ok(e) = edge_result(def) {
        let table = e.table;
        let read = if def.named_fields {
            edge_fields(def.fields@, table)
        } else {
            Ok(EdgeAcc { id: None, source: None, target: None, cols: Seq::empty() })
        };
        let acc = read->Ok_0;
        lemma_edge_columns_table(def.fields@, table, def.named_fields);
        let base = with_id_column(def.name@, table, acc.id, acc.cols);
        assert(forall|k: int| 0 <= k < base.len() ==> #[trigger] base[k].table == table) by {
            assert forall|k: int| 0 <= k < base.len() implies #[trigger] base[k].table == table by {
                if k > 0 {
                    assert(base[k] == acc.cols[k - 1]);
                }
            }
        }
        let cols = e.columns;
        let ins: Seq<ColumnView> = if has_column(base, "in"@) {
            Seq::empty()
        } else {
            seq![endpoint_column("r#in"@, "in"@, table, acc.source->Some_0.0)]
        };
        assert(cols == base + ins + (if has_column(base, "out"@) {
            Seq::<ColumnView>::empty()
        } else {
            seq![endpoint_column("r#out"@, "out"@, table, acc.target->Some_0.0)]
        }));
        if !has_column(base, "in"@) {
            assert(cols[base.len() as int].column == "in"@);
        } else {
            let k = choose|k: int| 0 <= k < base.len() && base[k].column == "in"@;
            assert(cols[k] == base[k]);
        }
        if !has_column(base, "out"@) {
            assert(cols[cols.len() - 1].column == "out"@);
        } else {
            let k = choose|k: int| 0 <= k < base.len() && base[k].column == "out"@;
            assert(cols[k] == base[k]);
        }
    }
}

/// The columns read from an edge's fields are all of the edge's table.
proof fn lemma_edge_columns_table(fields: Seq<FieldDecl>, table: Seq<char>, named: bool)
    ensures
        named ==> (edge_fields(fields, table) matches Ok(acc) ==> forall|k: int|
            0 <= k < acc.cols.len() ==> #[trigger] acc.cols[k].table == table),
    decreases fields.len(),
{
    if fields.len() > 0 {
        lemma_edge_columns_table(fields.drop_last(), table, named);
    }
}

} // verus!
