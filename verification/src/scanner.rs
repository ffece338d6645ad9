//! Reads node and edge declarations out of Rust source text into a schema snapshot.
use vstd::prelude::*;
use crate::pattern::{captures_all, captures_view, is_match, lowercase, regex_captures, regex_matches, to_lowercase};
use crate::snapshot::{Edge, EdgeView, Field, FieldKind, FieldType, FieldView, Model, ModelView, SchemaSnapshot, fields_view};
use crate::text::{
    chars_of, contains, contains_exec, find_first, find_from, find_from_exec, occurs_at, find_last_char, find_last_char_exec,
    lemma_find_from_bounds, lemma_split_nonempty, lemma_trim_len, owned, push_str, slice_vec, split_by,
    split_str, str_eq, string_from_chars, strip_both, strip_bounds, strip_leading, trim, trimmed,
};

verus! {

/// A struct carrying `#[derive(..Node..)]` (group 1: the struct's name).
pub const NODE_DERIVE: &'static str = r"(?s)#\s*\[derive\([^]]*Node[^]]*\)\](?:\s*#\s*\[[^]]*\])*\s*pub\s+struct\s+([A-Za-z0-9_]+)";

/// A struct carrying `#[derive(..Edge..)]` (group 1: the struct's name).
pub const EDGE_DERIVE: &'static str = r"(?s)#\s*\[derive\([^]]*Edge[^]]*\)\](?:\s*#\s*\[[^]]*\])*\s*pub\s+struct\s+([A-Za-z0-9_]+)";

/// A `#[ogm(.. table = "name" ..)]` attribute (group 1: the table).
pub const TABLE_ATTR: &'static str = r#"#\s*\[ogm\([^\]]*table\s*=\s*"([A-Za-z0-9_]+)"[^\[\]]*\)\]"#;

/// A `#[ogm(.. from = A, to = B ..)]` attribute (groups 1 and 2: the endpoint types).
pub const EDGE_ATTR: &'static str = r#"#\s*\[ogm\([^\]]*from\s*=\s*([A-Za-z0-9_]+)\s*,\s*to\s*=\s*([A-Za-z0-9_]+)[^\]]*\)\]"#;

/// A public field `pub name: Type,` (groups 1 and 2).
pub const FIELD_DECL: &'static str = r"pub\s+([A-Za-z0-9_]+)\s*:\s*([^,]+),";

/// An endpoint field `r#in: Type,` or `r#out: Type,` (groups 1 and 2).
pub const ENDPOINT_DECL: &'static str = r"(?:pub\s+)?r#?(in|out)\s*:\s*([^,]+),";

// ---------------------------------------------------------------------------
// Field types
// ---------------------------------------------------------------------------

/// The column type of a declared Rust type, as written.
pub open spec fn field_kind(raw: Seq<char>) -> FieldKind {
    if raw == "String"@ || raw == "&str"@ {
        FieldKind::String
    } else if raw == "i64"@ || raw == "i32"@ || raw == "i16"@ || raw == "i8"@ || raw == "isize"@ {
        FieldKind::Int64
    } else if raw == "u64"@ || raw == "u32"@ || raw == "u16"@ || raw == "u8"@ || raw == "usize"@ {
        FieldKind::Int64
    } else if raw == "f64"@ || raw == "f32"@ {
        FieldKind::Float64
    } else if raw == "bool"@ {
        FieldKind::Bool
    } else if raw == "DateTime<Utc>"@ || raw == "DateTime"@ {
        FieldKind::DateTime
    } else if contains(raw, "Uuid"@) {
        FieldKind::Uuid
    } else if contains(raw, "serde_json::Value"@) {
        FieldKind::Json
    } else {
        FieldKind::Other(raw)
    }
}

/// The column type of a Rust primitive scalar type, read from how its name is built: `f`
/// with a width of 32 or 64 bits is a float; `i` or `u` with a width of 8 to 64 bits or
/// `size` is an integer; `bool` is a boolean. Other names are no primitive scalar here.
pub open spec fn primitive_scalar_column(raw: Seq<char>) -> Option<FieldKind> {
    let width = raw.drop_first();
    if raw.len() >= 2 && raw[0] == 'f' && (width == "32"@ || width == "64"@) {
        Some(FieldKind::Float64)
    } else if raw.len() >= 2 && (raw[0] == 'i' || raw[0] == 'u') && (width == "8"@ || width == "16"@
        || width == "32"@ || width == "64"@ || width == "size"@) {
        Some(FieldKind::Int64)
    } else if raw == "bool"@ {
        Some(FieldKind::Bool)
    } else {
        None
    }
}

/// Every Rust primitive float, integer (up to 64 bits, and the pointer-sized ones) and
/// boolean type is read as its own kind of column: `f32`/`f64` as floats, `i8`..`i64`,
/// `isize`, `u8`..`u64`, `usize` as integers, `bool` as a boolean; and `String` or `&str` as
/// a string.
pub proof fn lemma_primitive_types_map_to_their_columns(raw: Seq<char>)
    ensures
        primitive_scalar_column(raw) matches Some(k) ==> field_kind(raw) == k,
        raw == "String"@ || raw == "&str"@ ==> field_kind(raw) == FieldKind::String,
{
    reveal_strlit("String");
    reveal_strlit("&str");
    reveal_strlit("i64");
    reveal_strlit("i32");
    reveal_strlit("i16");
    reveal_strlit("i8");
    reveal_strlit("isize");
    reveal_strlit("u64");
    reveal_strlit("u32");
    reveal_strlit("u16");
    reveal_strlit("u8");
    reveal_strlit("usize");
    reveal_strlit("f64");
    reveal_strlit("f32");
    reveal_strlit("bool");
    reveal_strlit("32");
    reveal_strlit("64");
    reveal_strlit("8");
    reveal_strlit("16");
    reveal_strlit("size");
    assert("String"@[0] == 'S' && "&str"@[0] == '&' && "bool"@[0] == 'b');
    assert("i64"@[0] == 'i' && "i32"@[0] == 'i' && "i16"@[0] == 'i' && "i8"@[0] == 'i' && "isize"@[0] == 'i');
    assert("u64"@[0] == 'u' && "u32"@[0] == 'u' && "u16"@[0] == 'u' && "u8"@[0] == 'u' && "usize"@[0] == 'u');
    assert("f64"@[0] == 'f' && "f32"@[0] == 'f');
    if raw.len() >= 2 {
        let w = raw.drop_first();
        assert(raw =~= seq![raw[0]] + w);
        if raw[0] == 'f' && w == "32"@ {
            assert(raw =~= "f32"@);
            assert(field_kind(raw) == FieldKind::Float64);
        }
        if raw[0] == 'f' && w == "64"@ {
            assert(raw =~= "f64"@);
            assert(field_kind(raw) == FieldKind::Float64);
        }
        if raw[0] == 'i' && w == "8"@ {
            assert(raw =~= "i8"@);
            assert(field_kind(raw) == FieldKind::Int64);
        }
        if raw[0] == 'i' && w == "16"@ {
            assert(raw =~= "i16"@);
            assert(field_kind(raw) == FieldKind::Int64);
        }
        if raw[0] == 'i' && w == "32"@ {
            assert(raw =~= "i32"@);
            assert(field_kind(raw) == FieldKind::Int64);
        }
        if raw[0] == 'i' && w == "64"@ {
            assert(raw =~= "i64"@);
            assert(field_kind(raw) == FieldKind::Int64);
        }
        if raw[0] == 'i' && w == "size"@ {
            assert(raw =~= "isize"@);
            assert(field_kind(raw) == FieldKind::Int64);
        }
        if raw[0] == 'u' && w == "8"@ {
            assert(raw =~= "u8"@);
            assert(field_kind(raw) == FieldKind::Int64);
        }
        if raw[0] == 'u' && w == "16"@ {
            assert(raw =~= "u16"@);
            assert(field_kind(raw) == FieldKind::Int64);
        }
        if raw[0] == 'u' && w == "32"@ {
            assert(raw =~= "u32"@);
            assert(field_kind(raw) == FieldKind::Int64);
        }
        if raw[0] == 'u' && w == "64"@ {
            assert(raw =~= "u64"@);
            assert(field_kind(raw) == FieldKind::Int64);
        }
        if raw[0] == 'u' && w == "size"@ {
            assert(raw =~= "usize"@);
            assert(field_kind(raw) == FieldKind::Int64);
        }
    }
}

/// Chrono's UTC date-times are read as date-time columns, a `Uuid` as a UUID column and a
/// `serde_json::Value` as a JSON column.
pub proof fn lemma_library_types_map_to_their_columns(raw: Seq<char>)
    ensures
        raw == "DateTime<Utc>"@ || raw == "DateTime"@ ==> field_kind(raw) == FieldKind::DateTime,
        raw == "Uuid"@ ==> field_kind(raw) == FieldKind::Uuid,
        raw == "serde_json::Value"@ ==> field_kind(raw) == FieldKind::Json,
{
    reveal_strlit("String");
    reveal_strlit("&str");
    reveal_strlit("i64");
    reveal_strlit("i32");
    reveal_strlit("i16");
    reveal_strlit("i8");
    reveal_strlit("isize");
    reveal_strlit("u64");
    reveal_strlit("u32");
    reveal_strlit("u16");
    reveal_strlit("u8");
    reveal_strlit("usize");
    reveal_strlit("f64");
    reveal_strlit("f32");
    reveal_strlit("bool");
    reveal_strlit("DateTime<Utc>");
    reveal_strlit("DateTime");
    reveal_strlit("Uuid");
    reveal_strlit("serde_json::Value");
    if raw == "Uuid"@ {
        assert(raw[0] == 'U');
        assert(occurs_at(raw, "Uuid"@, 0)) by {
            assert(raw.subrange(0, 4) =~= "Uuid"@);
        }
        assert(find_from(raw, "Uuid"@, 0) == Some(0int));
    }
    if raw == "serde_json::Value"@ {
        assert(raw[0] == 's');
        assert(raw.len() == 17);
        assert(!contains(raw, "Uuid"@)) by {
            lemma_no_uuid_in_json_value(raw, 0);
        }
        assert(occurs_at(raw, "serde_json::Value"@, 0)) by {
            assert(raw.subrange(0, 17) =~= "serde_json::Value"@);
        }
        assert(find_from(raw, "serde_json::Value"@, 0) == Some(0int));
    }
    if raw == "DateTime"@ || raw == "DateTime<Utc>"@ {
        assert(raw[0] == 'D');
    }
}

/// `serde_json::Value` holds no `Uuid`.
proof fn lemma_no_uuid_in_json_value(raw: Seq<char>, from: int)
    requires
        raw == "serde_json::Value"@,
        0 <= from,
    ensures
        find_from(raw, "Uuid"@, from) is None,
    decreases raw.len() + 1 - from,
{
    reveal_strlit("serde_json::Value");
    reveal_strlit("Uuid");
    if from + 4 <= raw.len() {
        assert(!occurs_at(raw, "Uuid"@, from)) by {
            if raw.subrange(from, from + 4) == "Uuid"@ {
                assert(raw.subrange(from, from + 4)[0] == 'U');
                assert(raw[from] == 'U');
            }
        }
        lemma_no_uuid_in_json_value(raw, from + 1);
    }
}

/// Whether `raw` is one of the given names.
fn is_one_of(raw: &str, names: &[&str]) -> (r: bool)
    ensures
        r == exists|i: int| 0 <= i < names@.len() && raw@ == names@[i]@,
{
    let mut i: usize = 0;
    while i < names.len()
        invariant
            0 <= i <= names@.len(),
            forall|k: int| 0 <= k < i ==> raw@ != names@[k]@,
        decreases names@.len() - i,
    {
        if str_eq(raw, names[i]) {
            return true;
        }
        i += 1;
    }
    false
}

/// The column type of a declared Rust type.
pub fn map_type(raw: &str) -> (r: FieldType)
    ensures
        r@ == field_kind(raw@),
{
    if is_one_of(raw, &["String", "&str"]) {
        FieldType::String
    } else if is_one_of(raw, &["i64", "i32", "i16", "i8", "isize"]) {
        FieldType::Int64
    } else if is_one_of(raw, &["u64", "u32", "u16", "u8", "usize"]) {
        FieldType::Int64
    } else if is_one_of(raw, &["f64", "f32"]) {
        FieldType::Float64
    } else if str_eq(raw, "bool") {
        FieldType::Bool
    } else if is_one_of(raw, &["DateTime<Utc>", "DateTime"]) {
        FieldType::DateTime
    } else {
        let v = chars_of(raw);
        if contains_exec(&v, &chars_of("Uuid")) {
            FieldType::Uuid
        } else if contains_exec(&v, &chars_of("serde_json::Value")) {
            FieldType::Json
        } else {
            FieldType::Other(owned(raw))
        }
    }
}

// ---------------------------------------------------------------------------
// Struct bodies
// ---------------------------------------------------------------------------

/// The text of a brace-delimited body: the characters of `s` up to the `}` that closes
/// nesting level `depth`, nested braces included.
pub open spec fn body_text(s: Seq<char>, depth: nat) -> Seq<char>
    decreases s.len(),
{
    if s.len() == 0 {
        s
    } else if s[0] == '{' {
        seq![s[0]] + body_text(s.drop_first(), depth + 1)
    } else if s[0] == '}' {
        if depth == 0 {
            Seq::empty()
        } else {
            seq![s[0]] + body_text(s.drop_first(), (depth - 1) as nat)
        }
    } else {
        seq![s[0]] + body_text(s.drop_first(), depth)
    }
}

/// The body of the first `struct <name>` declaration in `content`: the text after its first
/// `{` up to the matching `}`; `None` where there is no such declaration or no `{` after it.
pub open spec fn struct_block(content: Seq<char>, name: Seq<char>) -> Option<Seq<char>> {
    match find_first(content, "struct "@ + name) {
        None => None,
        Some(start) => {
            let after = content.subrange(start, content.len() as int);
            match find_first(after, seq!['{']) {
                None => None,
                Some(b) => Some(body_text(after.subrange(b + 1, after.len() as int), 0)),
            }
        },
    }
}

/// The body text of `v[from..]` at nesting level 0.
fn body_from(v: &Vec<char>, from: usize) -> (r: String)
    requires
        from <= v@.len(),
    ensures
        r@ == body_text(v@.subrange(from as int, v@.len() as int), 0),
{
    let mut collected = String::new();
    let mut depth: usize = 0;
    let mut i: usize = from;
    let n: usize = v.len();
    while i < n
        invariant
            n == v@.len(),
            from <= i <= n,
            depth <= i - from,
            collected@ + body_text(v@.subrange(i as int, n as int), depth as nat)
                == body_text(v@.subrange(from as int, n as int), 0),
        decreases n - i,
    {
        let ch = v[i];
        let ghost rest = v@.subrange(i as int, n as int);
        assert(rest[0] == ch);
        assert(rest.drop_first() =~= v@.subrange(i + 1, n as int));
        if ch == '{' {
            depth += 1;
        } else if ch == '}' {
            if depth == 0 {
                return collected;
            } else {
                depth -= 1;
            }
        }
        let ghost before = collected@;
        crate::text::push_char(&mut collected, ch);
        assert(collected@ =~= before + seq![ch]);
        i += 1;
    }
    assert(v@.subrange(n as int, n as int) =~= Seq::<char>::empty());
    assert(collected@ + Seq::<char>::empty() =~= collected@);
    collected
}

/// The body of the first `struct <struct_name>` declaration in `content`.
pub fn extract_struct_block(content: &str, struct_name: &str) -> (r: Option<String>)
    ensures
        r matches Some(b) ==> struct_block(content@, struct_name@) == Some(b@),
        r is None ==> struct_block(content@, struct_name@) is None,
{
    let v = chars_of(content);
    let mut pattern = owned("struct ");
    push_str(&mut pattern, struct_name);
    let p = chars_of(pattern.as_str());
    let found = find_from_exec(&v, &p, 0);
    proof {
        lemma_find_from_bounds(v@, p@, 0);
    }
    match found {
        None => None,
        Some(start) => {
            let after = slice_vec(&v, start, v.len());
            let brace: Vec<char> = vec!['{'];
            assert(brace@ =~= seq!['{']);
            let b = find_from_exec(&after, &brace, 0);
            proof {
                lemma_find_from_bounds(after@, brace@, 0);
            }
            match b {
                None => None,
                Some(bpos) => {
                    let body = body_from(&after, bpos + 1);
                    Some(body)
                },
            }
        },
    }
}

// ---------------------------------------------------------------------------
// Edge endpoints
// ---------------------------------------------------------------------------

/// Peels generic arguments off a type: while the type has a `<`, keep what lies between the
/// first `<` and the last `>`, trimmed. `Some(None)` where a `<` has no `>` at all; `None`
/// where the last `>` comes before the first `<` (a slice that cannot be taken).
pub open spec fn strip_generics(ty: Seq<char>) -> Option<Option<Seq<char>>>
    decreases ty.len(),
{
    match find_first(ty, seq!['<']) {
        None => Some(Some(ty)),
        Some(start) => match find_last_char(ty, '>') {
            None => Some(None),
            Some(end) => if start < 0 || end < start + 1 || end >= ty.len() {
                None
            } else {
                proof {
                    lemma_trim_len(ty.subrange(start + 1, end));
                }
                strip_generics(trim(ty.subrange(start + 1, end)))
            },
        },
    }
}

/// The node type named by an endpoint field's type: generic arguments peeled, leading `&`
/// dropped, and the last `::` segment kept. The inner `None` means no type could be read;
/// the outer `None` marks a type whose last `>` precedes its first `<`.
pub open spec fn endpoint_type(raw: Seq<char>) -> Option<Option<Seq<char>>> {
    match strip_generics(trim(raw)) {
        None => None,
        Some(None) => Some(None),
        Some(Some(t)) => {
            let u = trim(strip_leading(t, '&'));
            if u.len() == 0 {
                Some(None)
            } else {
                Some(Some(trim(split_by(u, "::"@).last())))
            }
        },
    }
}

/// A type's last `>` comes before its first `<`, at some step of peeling.
pub open spec fn endpoint_unreadable(raw: Seq<char>) -> bool {
    endpoint_type(raw) is None
}

/// A found last occurrence lies inside the string and holds the character.
proof fn lemma_find_last_bound(s: Seq<char>, c: char)
    ensures
        find_last_char(s, c) matches Some(i) ==> 0 <= i < s.len() && s[i] == c,
    decreases s.len(),
{
    if s.len() > 0 && s.last() != c {
        lemma_find_last_bound(s.drop_last(), c);
    }
}

/// Peels generic arguments off `v` (see `strip_generics`).
fn peel_generics(v: Vec<char>) -> (r: Option<Option<Vec<char>>>)
    ensures
        r is None <==> strip_generics(v@) is None,
        r matches Some(None) ==> strip_generics(v@) == Some(None::<Seq<char>>),
        r matches Some(Some(t)) ==> strip_generics(v@) == Some(Some(t@)),
{
    let mut ty = v;
    let lt: Vec<char> = vec!['<'];
    assert(lt@ =~= seq!['<']);
    loop
        invariant
            strip_generics(v@) == strip_generics(ty@),
            lt@ == seq!['<'],
        decreases ty@.len(),
    {
        let first = find_from_exec(&ty, &lt, 0);
        proof {
            lemma_find_from_bounds(ty@, lt@, 0);
        }
        match first {
            None => {
                return Some(Some(ty));
            },
            Some(start) => {
                let last = find_last_char_exec(&ty, ty.len(), '>');
                proof {
                    assert(ty@.subrange(0, ty@.len() as int) =~= ty@);
                    lemma_find_last_bound(ty@, '>');
                }
                match last {
                    None => {
                        return Some(None);
                    },
                    Some(end) => {
                        if end < start + 1 {
                            return None;
                        }
                        let next = trimmed(&ty, start + 1, end);
                        proof {
                            lemma_trim_len(ty@.subrange(start + 1, end as int));
                        }
                        ty = next;
                    },
                }
            },
        }
    }
}

/// The node type named by an endpoint field's type, or `None` where no type can be read
/// (see `endpoint_type`).
fn endpoint_node(raw: &Vec<char>) -> (r: Option<Option<String>>)
    ensures
        r is None <==> endpoint_type(raw@) is None,
        r matches Some(None) ==> endpoint_type(raw@) == Some(None::<Seq<char>>),
        r matches Some(Some(t)) ==> endpoint_type(raw@) == Some(Some(t@)),
{
    let t0 = trimmed(raw, 0, raw.len());
    assert(raw@.subrange(0, raw@.len() as int) =~= raw@);
    match peel_generics(t0) {
        None => None,
        Some(None) => Some(None),
        Some(Some(t)) => {
            let (a, b) = strip_bounds(&t, 0, t.len(), '&', true, false);
            assert(t@.subrange(0, t@.len() as int) =~= t@);
            let u = trimmed(&t, a, b);
            if u.len() == 0 {
                Some(None)
            } else {
                let sep = chars_of("::");
                proof {
                    reveal_strlit("::");
                }
                let pieces = split_str(&u, &sep);
                proof {
                    lemma_split_nonempty(u@, sep@);
                    assert(pieces@.len() == split_by(u@, sep@).len());
                }
                let last = chars_of(pieces[pieces.len() - 1].as_str());
                let w = trimmed(&last, 0, last.len());
                proof {
                    assert(last@.subrange(0, last@.len() as int) =~= last@);
                    assert(pieces@[pieces@.len() - 1]@ == split_by(u@, sep@).last());
                }
                Some(Some(string_from_chars(w.as_slice())))
            }
        },
    }
}

/// The node type named by an endpoint field's type (`SimpleId<Person>` gives `Person`),
/// or `None` where none can be read.
pub fn infer_endpoint_from_type(raw: &str) -> (r: Option<String>)
    requires
        !endpoint_unreadable(raw@),
    ensures
        r matches Some(t) ==> endpoint_type(raw@) == Some(Some(t@)),
        r is None ==> endpoint_type(raw@) == Some(None::<Seq<char>>),
{
    let v = chars_of(raw);
    match endpoint_node(&v) {
        Some(r) => r,
        None => None,
    }
}

// ---------------------------------------------------------------------------
// Declarations
// ---------------------------------------------------------------------------

/// Capture group `i` of a match; `None` where the group is absent.
pub open spec fn group(cap: Seq<Option<Seq<char>>>, i: int) -> Option<Seq<char>> {
    if 0 <= i < cap.len() {
        cap[i]
    } else {
        None
    }
}

/// The views of a list of strings.
pub open spec fn strs_view(v: Seq<String>) -> Seq<Seq<char>> {
    v.map_values(|s: String| s@)
}

/// A struct name is kept: every included pattern that compiles matches it, and no excluded
/// pattern that compiles does.
pub open spec fn name_selected(name: Seq<char>, included: Seq<Seq<char>>, excluded: Seq<Seq<char>>) -> bool {
    &&& forall|i: int| 0 <= i < included.len() ==> regex_matches(included[i], name) != Some(false)
    &&& forall|j: int| 0 <= j < excluded.len() ==> regex_matches(excluded[j], name) != Some(true)
}

/// Whether the struct named `name` is kept by the included and excluded patterns.
pub fn is_selected(name: &str, included: &Vec<String>, excluded: &Vec<String>) -> (r: bool)
    ensures
        r == name_selected(name@, strs_view(included@), strs_view(excluded@)),
{
    let mut i: usize = 0;
    while i < included.len()
        invariant
            0 <= i <= included@.len(),
            forall|k: int| 0 <= k < i ==> regex_matches(#[trigger] included@[k]@, name@) != Some(false),
        decreases included@.len() - i,
    {
        if is_match(included[i].as_str(), name) == Some(false) {
            assert(strs_view(included@)[i as int] == included@[i as int]@);
            return false;
        }
        i += 1;
    }
    let mut j: usize = 0;
    while j < excluded.len()
        invariant
            0 <= j <= excluded@.len(),
            forall|k: int| 0 <= k < included@.len() ==> regex_matches(#[trigger] included@[k]@, name@) != Some(false),
            forall|k: int| 0 <= k < j ==> regex_matches(#[trigger] excluded@[k]@, name@) != Some(true),
        decreases excluded@.len() - j,
    {
        if is_match(excluded[j].as_str(), name) == Some(true) {
            assert(strs_view(excluded@)[j as int] == excluded@[j as int]@);
            return false;
        }
        j += 1;
    }
    assert forall|i: int| 0 <= i < strs_view(included@).len() implies regex_matches(strs_view(included@)[i], name@) != Some(false) by {
        assert(strs_view(included@)[i] == included@[i]@);
    }
    assert forall|i: int| 0 <= i < strs_view(excluded@).len() implies regex_matches(strs_view(excluded@)[i], name@) != Some(true) by {
        assert(strs_view(excluded@)[i] == excluded@[i]@);
    }
    true
}

/// Group `g` of the first match of a search; `None` where nothing matched or the group is absent.
pub open spec fn first_group(caps: Seq<Seq<Option<Seq<char>>>>, g: int) -> Option<Seq<char>> {
    if caps.len() > 0 {
        group(caps[0], g)
    } else {
        None
    }
}

/// The table of a declaration named `name`: the first `#[ogm(table = ..)]` of the file,
/// else the lowercased name. `None` where the attribute pattern does not compile.
pub open spec fn table_for(content: Seq<char>, name: Seq<char>) -> Option<Seq<char>> {
    match regex_captures(TABLE_ATTR@, content) {
        None => None,
        Some(caps) => Some(
            match first_group(caps, 1) {
                Some(t) => t,
                None => lowercase(name),
            },
        ),
    }
}

/// A field read from a `pub name: Type,` match; `None` where a group is absent.
pub open spec fn field_from(cap: Seq<Option<Seq<char>>>) -> Option<FieldView> {
    match (group(cap, 1), group(cap, 2)) {
        (Some(n), Some(t)) => Some(FieldView { name: n, ty: field_kind(trim(t)), primary: n == "id"@ }),
        _ => None,
    }
}

/// The fields read from a list of field matches, in order; `None` where one cannot be read.
pub open spec fn fields_from(caps: Seq<Seq<Option<Seq<char>>>>) -> Option<Seq<FieldView>>
    decreases caps.len(),
{
    if caps.len() == 0 {
        Some(Seq::empty())
    } else {
        match (fields_from(caps.drop_last()), field_from(caps.last())) {
            (Some(fs), Some(f)) => Some(fs.push(f)),
            _ => None,
        }
    }
}

/// Once a prefix of the matches cannot be read, neither can the whole list.
proof fn lemma_fields_from_none(caps: Seq<Seq<Option<Seq<char>>>>, n: int)
    requires
        0 <= n <= caps.len(),
        fields_from(caps.take(n)) is None,
    ensures
        fields_from(caps) is None,
    decreases caps.len(),
{
    if n == caps.len() {
        assert(caps.take(n) =~= caps);
    } else {
        assert(caps.drop_last().take(n) =~= caps.take(n));
        lemma_fields_from_none(caps.drop_last(), n);
    }
}

/// The public fields declared in a struct body.
pub open spec fn block_fields(block: Seq<char>) -> Option<Seq<FieldView>> {
    match regex_captures(FIELD_DECL@, block) {
        None => None,
        Some(caps) => fields_from(caps),
    }
}

/// The body of struct `name`, or the empty text where it has none.
pub open spec fn block_or_empty(content: Seq<char>, name: Seq<char>) -> Seq<char> {
    match struct_block(content, name) {
        Some(b) => b,
        None => Seq::empty(),
    }
}

/// The string of a match group; callers hold that it is present.
fn group_text(cap: &Vec<Option<String>>, g: usize) -> (r: Option<String>)
    ensures
        r matches Some(t) ==> group(crate::pattern::groups_view(*cap), g as int) == Some(t@),
        r is None ==> group(crate::pattern::groups_view(*cap), g as int) is None,
{
    if g < cap.len() {
        match &cap[g] {
            Some(t) => Some(owned(t.as_str())),
            None => None,
        }
    } else {
        None
    }
}

/// The table of the declaration named `name` in `content`.
fn table_of(content: &str, name: &str) -> (r: Option<String>)
    ensures
        r matches Some(t) ==> table_for(content@, name@) == Some(t@),
        r is None ==> table_for(content@, name@) is None,
{
    let caps = captures_all(TABLE_ATTR, content);
    match caps {
        None => None,
        Some(caps) => {
            let first = if caps.len() > 0 {
                group_text(&caps[0], 1)
            } else {
                None
            };
            proof {
                if caps@.len() > 0 {
                    assert(captures_view(Some(caps)).unwrap()[0] == crate::pattern::groups_view(caps@[0]));
                }
            }
            match first {
                Some(t) => Some(t),
                None => Some(to_lowercase(name)),
            }
        },
    }
}

/// The fields read from the matches of the field pattern in a struct body (group 1 the
/// name, group 2 the type), in order; `None` where a match lacks either group.
pub fn fields_from_captures(caps: &Vec<Vec<Option<String>>>) -> (r: Option<Vec<Field>>)
    ensures
        r matches Some(fs) ==> fields_from(captures_view(Some(*caps)).unwrap()) == Some(fields_view(fs@)),
        r is None ==> fields_from(captures_view(Some(*caps)).unwrap()) is None,
{
    let ghost cv = captures_view(Some(*caps)).unwrap();
    let mut fields: Vec<Field> = Vec::new();
    let mut i: usize = 0;
    while i < caps.len()
        invariant
            0 <= i <= caps@.len(),
            cv == captures_view(Some(*caps)).unwrap(),
            cv.len() == caps@.len(),
            fields_from(cv.take(i as int)) == Some(fields_view(fields@)),
        decreases caps@.len() - i,
    {
        assert(cv.take(i + 1).drop_last() =~= cv.take(i as int));
        assert(cv[i as int] == crate::pattern::groups_view(caps@[i as int]));
        let name = group_text(&caps[i], 1);
        let ty = group_text(&caps[i], 2);
        match (name, ty) {
            (Some(name), Some(ty)) => {
                let tv = chars_of(ty.as_str());
                let raw = trimmed(&tv, 0, tv.len());
                assert(tv@.subrange(0, tv@.len() as int) =~= tv@);
                let raw_s = string_from_chars(raw.as_slice());
                let ty = map_type(raw_s.as_str());
                let primary = str_eq(name.as_str(), "id");
                let ghost before = fields_view(fields@);
                fields.push(Field { name, ty, primary });
                assert(fields_view(fields@) =~= before.push(field_from(cv[i as int]).unwrap()));
            },
            _ => {
                proof {
                    assert(cv.take(i + 1).last() == cv[i as int]);
                    assert(field_from(cv[i as int]) is None);
                    assert(fields_from(cv.take(i + 1)) is None);
                    lemma_fields_from_none(cv, i + 1);
                }
                return None;
            },
        }
        i += 1;
    }
    assert(cv.take(caps@.len() as int) =~= cv);
    Some(fields)
}

/// The public fields declared in a struct body.
fn fields_of_block(block: &str) -> (r: Option<Vec<Field>>)
    ensures
        r matches Some(fs) ==> block_fields(block@) == Some(fields_view(fs@)),
        r is None ==> block_fields(block@) is None,
{
    match captures_all(FIELD_DECL, block) {
        None => None,
        Some(caps) => fields_from_captures(&caps),
    }
}

// ---------------------------------------------------------------------------
// Models
// ---------------------------------------------------------------------------

/// The model declared by a node-derive match: `Some(None)` where its name is filtered out,
/// `None` where the match or the file cannot be read.
pub open spec fn model_from(
    content: Seq<char>,
    included: Seq<Seq<char>>,
    excluded: Seq<Seq<char>>,
    cap: Seq<Option<Seq<char>>>,
) -> Option<Option<ModelView>> {
    match group(cap, 1) {
        None => None,
        Some(name) => if !name_selected(name, included, excluded) {
            Some(None)
        } else {
            match (table_for(content, name), block_fields(block_or_empty(content, name))) {
                (Some(table), Some(fields)) => Some(Some(ModelView { table, fields })),
                _ => None,
            }
        },
    }
}

/// The models declared by a list of node-derive matches, in order.
pub open spec fn models_from(
    content: Seq<char>,
    included: Seq<Seq<char>>,
    excluded: Seq<Seq<char>>,
    caps: Seq<Seq<Option<Seq<char>>>>,
) -> Option<Seq<ModelView>>
    decreases caps.len(),
{
    if caps.len() == 0 {
        Some(Seq::empty())
    } else {
        match (models_from(content, included, excluded, caps.drop_last()), model_from(content, included, excluded, caps.last())) {
            (Some(ms), Some(Some(m))) => Some(ms.push(m)),
            (Some(ms), Some(None)) => Some(ms),
            _ => None,
        }
    }
}

proof fn lemma_models_from_none(
    content: Seq<char>,
    included: Seq<Seq<char>>,
    excluded: Seq<Seq<char>>,
    caps: Seq<Seq<Option<Seq<char>>>>,
    n: int,
)
    requires
        0 <= n <= caps.len(),
        models_from(content, included, excluded, caps.take(n)) is None,
    ensures
        models_from(content, included, excluded, caps) is None,
    decreases caps.len(),
{
    if n == caps.len() {
        assert(caps.take(n) =~= caps);
    } else {
        assert(caps.drop_last().take(n) =~= caps.take(n));
        lemma_models_from_none(content, included, excluded, caps.drop_last(), n);
    }
}

/// The body of struct `name` in `content`, or the empty string.
fn block_text(content: &str, name: &str) -> (r: String)
    ensures
        r@ == block_or_empty(content@, name@),
{
    match extract_struct_block(content, name) {
        Some(b) => b,
        None => String::new(),
    }
}

/// The model declared by one node-derive match `cap` (group 1 the struct name) in `content`:
/// `Some(None)` where the name is filtered out, `None` where the declaration cannot be read.
pub fn model_of(content: &str, included: &Vec<String>, excluded: &Vec<String>, cap: &Vec<Option<String>>) -> (r: Option<Option<Model>>)
    ensures
        r is None <==> model_from(content@, strs_view(included@), strs_view(excluded@), crate::pattern::groups_view(*cap)) is None,
        r matches Some(None) ==> model_from(content@, strs_view(included@), strs_view(excluded@), crate::pattern::groups_view(*cap)) == Some(None::<ModelView>),
        r matches Some(Some(m)) ==> model_from(content@, strs_view(included@), strs_view(excluded@), crate::pattern::groups_view(*cap)) == Some(Some(m@)),
{
    let name = match group_text(cap, 1) {
        Some(n) => n,
        None => {
            return None;
        },
    };
    if !is_selected(name.as_str(), included, excluded) {
        return Some(None);
    }
    let table = table_of(content, name.as_str());
    let block = block_text(content, name.as_str());
    let fields = fields_of_block(block.as_str());
    match (table, fields) {
        (Some(table), Some(fields)) => Some(Some(Model { table, fields })),
        _ => None,
    }
}

/// The models declared in `content`.
fn models_of(content: &str, included: &Vec<String>, excluded: &Vec<String>) -> (r: Option<Vec<Model>>)
    ensures
        r matches Some(ms) ==> (match regex_captures(NODE_DERIVE@, content@) {
            Some(caps) => models_from(content@, strs_view(included@), strs_view(excluded@), caps) == Some(ms@.map_values(|m: Model| m@)),
            None => false,
        }),
        r is None ==> (match regex_captures(NODE_DERIVE@, content@) {
            Some(caps) => models_from(content@, strs_view(included@), strs_view(excluded@), caps) is None,
            None => true,
        }),
{
    let caps = match captures_all(NODE_DERIVE, content) {
        None => {
            return None;
        },
        Some(c) => c,
    };
    let ghost cv = captures_view(Some(caps)).unwrap();
    let ghost inc = strs_view(included@);
    let ghost exc = strs_view(excluded@);
    let mut models: Vec<Model> = Vec::new();
    let mut i: usize = 0;
    while i < caps.len()
        invariant
            0 <= i <= caps@.len(),
            cv == captures_view(Some(caps)).unwrap(),
            regex_captures(NODE_DERIVE@, content@) == Some(cv),
            inc == strs_view(included@),
            exc == strs_view(excluded@),
            cv.len() == caps@.len(),
            models_from(content@, inc, exc, cv.take(i as int)) == Some(models@.map_values(|m: Model| m@)),
        decreases caps@.len() - i,
    {
        assert(cv.take(i + 1).drop_last() =~= cv.take(i as int));
        assert(cv.take(i + 1).last() == cv[i as int]);
        assert(cv[i as int] == crate::pattern::groups_view(caps@[i as int]));
        match model_of(content, included, excluded, &caps[i]) {
            None => {
                proof {
                    lemma_models_from_none(content@, inc, exc, cv, i + 1);
                }
                return None;
            },
            Some(None) => {},
            Some(Some(m)) => {
                let ghost before = models@.map_values(|m: Model| m@);
                models.push(m);
                assert(models@.map_values(|m: Model| m@) =~= before.push(m@));
            },
        }
        i += 1;
    }
    assert(cv.take(caps@.len() as int) =~= cv);
    Some(models)
}

// ---------------------------------------------------------------------------
// Edges
// ---------------------------------------------------------------------------

/// The endpoint types inferred from a list of `r#in` / `r#out` matches, in order: the
/// first readable `in` type and the first readable `out` type. `None` where a match or a
/// type cannot be read.
pub open spec fn endpoints_from(caps: Seq<Seq<Option<Seq<char>>>>) -> Option<(Option<Seq<char>>, Option<Seq<char>>)>
    decreases caps.len(),
{
    if caps.len() == 0 {
        Some((None, None))
    } else {
        match endpoints_from(caps.drop_last()) {
            None => None,
            Some((f, t)) => match (group(caps.last(), 1), group(caps.last(), 2)) {
                (Some(kind), Some(ty)) => {
                    let raw = trim(ty);
                    if kind == "in"@ && f is None {
                        match endpoint_type(raw) {
                            None => None,
                            Some(e) => Some((e, t)),
                        }
                    } else if kind == "out"@ && t is None {
                        match endpoint_type(raw) {
                            None => None,
                            Some(e) => Some((f, e)),
                        }
                    } else {
                        Some((f, t))
                    }
                },
                _ => None,
            },
        }
    }
}

proof fn lemma_endpoints_from_none(caps: Seq<Seq<Option<Seq<char>>>>, n: int)
    requires
        0 <= n <= caps.len(),
        endpoints_from(caps.take(n)) is None,
    ensures
        endpoints_from(caps) is None,
    decreases caps.len(),
{
    if n == caps.len() {
        assert(caps.take(n) =~= caps);
    } else {
        assert(caps.drop_last().take(n) =~= caps.take(n));
        lemma_endpoints_from_none(caps.drop_last(), n);
    }
}

/// The endpoint pair of the first `#[ogm(from = .., to = ..)]` attribute, if any.
pub open spec fn attr_endpoints(caps: Seq<Seq<Option<Seq<char>>>>) -> Option<(Seq<char>, Seq<char>)> {
    match (first_group(caps, 1), first_group(caps, 2)) {
        (Some(a), Some(b)) => Some((a, b)),
        _ => None,
    }
}

/// The edge declared by an edge-derive match: `Some(None)` where its name is filtered out,
/// `None` where the match or the file cannot be read. Endpoints come from the attribute
/// where there is one, else from the endpoint fields, else `unknown_from` / `unknown_to`.
pub open spec fn edge_from(
    content: Seq<char>,
    included: Seq<Seq<char>>,
    excluded: Seq<Seq<char>>,
    cap: Seq<Option<Seq<char>>>,
) -> Option<Option<EdgeView>> {
    match group(cap, 1) {
        None => None,
        Some(name) => if !name_selected(name, included, excluded) {
            Some(None)
        } else {
            let block = block_or_empty(content, name);
            match (
                table_for(content, name),
                regex_captures(EDGE_ATTR@, content),
                regex_captures(ENDPOINT_DECL@, block),
                block_fields(block),
            ) {
                (Some(table), Some(attr_caps), Some(ep_caps), Some(fields)) => match endpoints_from(ep_caps) {
                    None => None,
                    Some((f, t)) => {
                        let from = match attr_endpoints(attr_caps) {
                            Some((a, _b)) => a,
                            None => match f {
                                Some(x) => x,
                                None => "unknown_from"@,
                            },
                        };
                        let to = match attr_endpoints(attr_caps) {
                            Some((_a, b)) => b,
                            None => match t {
                                Some(x) => x,
                                None => "unknown_to"@,
                            },
                        };
                        Some(Some(EdgeView { table, from, to, fields }))
                    },
                },
                _ => None,
            }
        },
    }
}

/// The edges declared by a list of edge-derive matches, in order.
pub open spec fn edges_from(
    content: Seq<char>,
    included: Seq<Seq<char>>,
    excluded: Seq<Seq<char>>,
    caps: Seq<Seq<Option<Seq<char>>>>,
) -> Option<Seq<EdgeView>>
    decreases caps.len(),
{
    if caps.len() == 0 {
        Some(Seq::empty())
    } else {
        match (edges_from(content, included, excluded, caps.drop_last()), edge_from(content, included, excluded, caps.last())) {
            (Some(es), Some(Some(e))) => Some(es.push(e)),
            (Some(es), Some(None)) => Some(es),
            _ => None,
        }
    }
}

proof fn lemma_edges_from_none(
    content: Seq<char>,
    included: Seq<Seq<char>>,
    excluded: Seq<Seq<char>>,
    caps: Seq<Seq<Option<Seq<char>>>>,
    n: int,
)
    requires
        0 <= n <= caps.len(),
        edges_from(content, included, excluded, caps.take(n)) is None,
    ensures
        edges_from(content, included, excluded, caps) is None,
    decreases caps.len(),
{
    if n == caps.len() {
        assert(caps.take(n) =~= caps);
    } else {
        assert(caps.drop_last().take(n) =~= caps.take(n));
        lemma_edges_from_none(content, included, excluded, caps.drop_last(), n);
    }
}

/// The endpoint types inferred from the endpoint fields of a struct body.
fn endpoints_of(block: &str) -> (r: Option<(Option<String>, Option<String>)>)
    ensures
        r matches Some((f, t)) ==> (match regex_captures(ENDPOINT_DECL@, block@) {
            Some(caps) => endpoints_from(caps) == Some((
                match f { Some(x) => Some(x@), None => None::<Seq<char>> },
                match t { Some(x) => Some(x@), None => None::<Seq<char>> },
            )),
            None => false,
        }),
        r is None ==> (match regex_captures(ENDPOINT_DECL@, block@) {
            Some(caps) => endpoints_from(caps) is None,
            None => true,
        }),
{
    let caps = match captures_all(ENDPOINT_DECL, block) {
        None => {
            return None;
        },
        Some(c) => c,
    };
    let ghost cv = captures_view(Some(caps)).unwrap();
    let mut from: Option<String> = None;
    let mut to: Option<String> = None;
    let mut i: usize = 0;
    while i < caps.len()
        invariant
            0 <= i <= caps@.len(),
            cv == captures_view(Some(caps)).unwrap(),
            regex_captures(ENDPOINT_DECL@, block@) == Some(cv),
            cv.len() == caps@.len(),
            endpoints_from(cv.take(i as int)) == Some((
                match from { Some(x) => Some(x@), None => None::<Seq<char>> },
                match to { Some(x) => Some(x@), None => None::<Seq<char>> },
            )),
        decreases caps@.len() - i,
    {
        assert(cv.take(i + 1).drop_last() =~= cv.take(i as int));
        assert(cv.take(i + 1).last() == cv[i as int]);
        assert(cv[i as int] == crate::pattern::groups_view(caps@[i as int]));
        let kind = group_text(&caps[i], 1);
        let ty = group_text(&caps[i], 2);
        match (kind, ty) {
            (Some(kind), Some(ty)) => {
                let tv = chars_of(ty.as_str());
                let raw = trimmed(&tv, 0, tv.len());
                assert(tv@.subrange(0, tv@.len() as int) =~= tv@);
                if str_eq(kind.as_str(), "in") && from.is_none() {
                    match endpoint_node(&raw) {
                        None => {
                            proof {
                                lemma_endpoints_from_none(cv, i + 1);
                            }
                            return None;
                        },
                        Some(e) => {
                            from = e;
                        },
                    }
                } else if str_eq(kind.as_str(), "out") && to.is_none() {
                    match endpoint_node(&raw) {
                        None => {
                            proof {
                                lemma_endpoints_from_none(cv, i + 1);
                            }
                            return None;
                        },
                        Some(e) => {
                            to = e;
                        },
                    }
                }
            },
            _ => {
                proof {
                    assert(endpoints_from(cv.take(i + 1)) is None);
                    lemma_endpoints_from_none(cv, i + 1);
                }
                return None;
            },
        }
        i += 1;
    }
    assert(cv.take(caps@.len() as int) =~= cv);
    Some((from, to))
}

/// The endpoint pair of the first `#[ogm(from = .., to = ..)]` attribute of `content`.
fn attr_endpoints_of(content: &str) -> (r: Option<Option<(String, String)>>)
    ensures
        r is None <==> regex_captures(EDGE_ATTR@, content@) is None,
        r matches Some(None) ==> (match regex_captures(EDGE_ATTR@, content@) {
            Some(caps) => attr_endpoints(caps) is None,
            None => false,
        }),
        r matches Some(Some((a, b))) ==> (match regex_captures(EDGE_ATTR@, content@) {
            Some(caps) => attr_endpoints(caps) == Some((a@, b@)),
            None => false,
        }),
{
    match captures_all(EDGE_ATTR, content) {
        None => None,
        Some(caps) => {
            if caps.len() == 0 {
                return Some(None);
            }
            assert(captures_view(Some(caps)).unwrap()[0] == crate::pattern::groups_view(caps@[0]));
            let a = group_text(&caps[0], 1);
            let b = group_text(&caps[0], 2);
            match (a, b) {
                (Some(a), Some(b)) => Some(Some((a, b))),
                _ => Some(None),
            }
        },
    }
}

/// The edge declared by one edge-derive match `cap` (group 1 the struct name) in `content`:
/// `Some(None)` where the name is filtered out, `None` where the declaration cannot be read.
pub fn edge_of(content: &str, included: &Vec<String>, excluded: &Vec<String>, cap: &Vec<Option<String>>) -> (r: Option<Option<Edge>>)
    ensures
        r is None <==> edge_from(content@, strs_view(included@), strs_view(excluded@), crate::pattern::groups_view(*cap)) is None,
        r matches Some(None) ==> edge_from(content@, strs_view(included@), strs_view(excluded@), crate::pattern::groups_view(*cap)) == Some(None::<EdgeView>),
        r matches Some(Some(e)) ==> edge_from(content@, strs_view(included@), strs_view(excluded@), crate::pattern::groups_view(*cap)) == Some(Some(e@)),
{
    let name = match group_text(cap, 1) {
        Some(n) => n,
        None => {
            return None;
        },
    };
    if !is_selected(name.as_str(), included, excluded) {
        return Some(None);
    }
    let table = table_of(content, name.as_str());
    let attr = attr_endpoints_of(content);
    let block = block_text(content, name.as_str());
    let endpoints = endpoints_of(block.as_str());
    let fields = fields_of_block(block.as_str());
    match (table, attr, endpoints, fields) {
        (Some(table), Some(attr), Some((f, t)), Some(fields)) => {
            let (from, to) = match attr {
                Some((a, b)) => (a, b),
                None => (
                    match f {
                        Some(x) => x,
                        None => owned("unknown_from"),
                    },
                    match t {
                        Some(x) => x,
                        None => owned("unknown_to"),
                    },
                ),
            };
            Some(Some(Edge { table, from, to, fields }))
        },
        _ => None,
    }
}

/// The edges declared in `content`.
fn edges_of(content: &str, included: &Vec<String>, excluded: &Vec<String>) -> (r: Option<Vec<Edge>>)
    ensures
        r matches Some(es) ==> (match regex_captures(EDGE_DERIVE@, content@) {
            Some(caps) => edges_from(content@, strs_view(included@), strs_view(excluded@), caps) == Some(es@.map_values(|e: Edge| e@)),
            None => false,
        }),
        r is None ==> (match regex_captures(EDGE_DERIVE@, content@) {
            Some(caps) => edges_from(content@, strs_view(included@), strs_view(excluded@), caps) is None,
            None => true,
        }),
{
    let caps = match captures_all(EDGE_DERIVE, content) {
        None => {
            return None;
        },
        Some(c) => c,
    };
    let ghost cv = captures_view(Some(caps)).unwrap();
    let ghost inc = strs_view(included@);
    let ghost exc = strs_view(excluded@);
    let mut edges: Vec<Edge> = Vec::new();
    let mut i: usize = 0;
    while i < caps.len()
        invariant
            0 <= i <= caps@.len(),
            cv == captures_view(Some(caps)).unwrap(),
            regex_captures(EDGE_DERIVE@, content@) == Some(cv),
            inc == strs_view(included@),
            exc == strs_view(excluded@),
            cv.len() == caps@.len(),
            edges_from(content@, inc, exc, cv.take(i as int)) == Some(edges@.map_values(|e: Edge| e@)),
        decreases caps@.len() - i,
    {
        assert(cv.take(i + 1).drop_last() =~= cv.take(i as int));
        assert(cv.take(i + 1).last() == cv[i as int]);
        assert(cv[i as int] == crate::pattern::groups_view(caps@[i as int]));
        match edge_of(content, included, excluded, &caps[i]) {
            None => {
                proof {
                    lemma_edges_from_none(content@, inc, exc, cv, i + 1);
                }
                return None;
            },
            Some(None) => {},
            Some(Some(e)) => {
                let ghost before = edges@.map_values(|e: Edge| e@);
                edges.push(e);
                assert(edges@.map_values(|e: Edge| e@) =~= before.push(e@));
            },
        }
        i += 1;
    }
    assert(cv.take(caps@.len() as int) =~= cv);
    Some(edges)
}

// ---------------------------------------------------------------------------
// Files
// ---------------------------------------------------------------------------

/// The models and edges declared in one source text; `None` where it cannot be read:
/// a pattern that does not compile, a missing capture group, or an endpoint type whose
/// last `>` precedes its first `<`.
pub open spec fn scan_text(
    content: Seq<char>,
    included: Seq<Seq<char>>,
    excluded: Seq<Seq<char>>,
) -> Option<(Seq<ModelView>, Seq<EdgeView>)> {
    match (regex_captures(NODE_DERIVE@, content), regex_captures(EDGE_DERIVE@, content)) {
        (Some(nc), Some(ec)) => match (models_from(content, included, excluded, nc), edges_from(content, included, excluded, ec)) {
            (Some(ms), Some(es)) => Some((ms, es)),
            _ => None,
        },
        _ => None,
    }
}

/// The source text cannot be scanned (see `scan_text`).
pub open spec fn scan_fails(content: Seq<char>, included: Seq<Seq<char>>, excluded: Seq<Seq<char>>) -> bool {
    scan_text(content, included, excluded) is None
}

/// The models and edges declared in `content`, or `None` where it cannot be scanned.
fn try_scan_file(content: &str, included: &Vec<String>, excluded: &Vec<String>) -> (r: Option<(Vec<Model>, Vec<Edge>)>)
    ensures
        r is None <==> scan_fails(content@, strs_view(included@), strs_view(excluded@)),
        r matches Some((ms, es)) ==> scan_text(content@, strs_view(included@), strs_view(excluded@)) == Some((
            ms@.map_values(|m: Model| m@),
            es@.map_values(|e: Edge| e@),
        )),
{
    let models = models_of(content, included, excluded);
    let edges = edges_of(content, included, excluded);
    match (models, edges) {
        (Some(ms), Some(es)) => Some((ms, es)),
        _ => None,
    }
}

/// A path is scanned: it contains one of the path patterns, stripped of `*` at both ends.
pub open spec fn path_selected(path: Seq<char>, paths: Seq<Seq<char>>) -> bool {
    exists|i: int| 0 <= i < paths.len() && contains(path, strip_both(#[trigger] paths[i], '*'))
}

/// Whether the file at `path` is scanned.
pub fn is_path_selected(path: &str, paths: &Vec<String>) -> (r: bool)
    ensures
        r == path_selected(path@, strs_view(paths@)),
{
    let hay = chars_of(path);
    let mut i: usize = 0;
    while i < paths.len()
        invariant
            0 <= i <= paths@.len(),
            hay@ == path@,
            forall|k: int| 0 <= k < i ==> !contains(path@, strip_both(#[trigger] strs_view(paths@)[k], '*')),
        decreases paths@.len() - i,
    {
        let p = chars_of(paths[i].as_str());
        let (a, b) = strip_bounds(&p, 0, p.len(), '*', true, true);
        assert(p@.subrange(0, p@.len() as int) =~= p@);
        let needle = slice_vec(&p, a, b);
        assert(strs_view(paths@)[i as int] == paths@[i as int]@);
        if contains_exec(&hay, &needle) {
            return true;
        }
        i += 1;
    }
    false
}

/// A source file: its path and its text.
#[derive(Debug, Clone)]
pub struct SourceFile {
    pub path: String,
    pub content: String,
}

/// Where and what to scan: the root directory, the path patterns, and the patterns that
/// struct names must match (`included`) and must not match (`excluded`).
#[derive(Debug, Clone)]
pub struct ScanOptions {
    pub root: String,
    pub paths: Vec<String>,
    pub included: Vec<String>,
    pub excluded: Vec<String>,
}

/// The models and edges of a list of source files, file by file: only the files whose path
/// is selected count. `None` where one of them cannot be scanned.
pub open spec fn scan_all(
    files: Seq<SourceFile>,
    paths: Seq<Seq<char>>,
    included: Seq<Seq<char>>,
    excluded: Seq<Seq<char>>,
) -> Option<(Seq<ModelView>, Seq<EdgeView>)>
    decreases files.len(),
{
    if files.len() == 0 {
        Some((Seq::empty(), Seq::empty()))
    } else {
        match scan_all(files.drop_last(), paths, included, excluded) {
            None => None,
            Some((ms, es)) => {
                let f = files.last();
                if !path_selected(f.path@, paths) {
                    Some((ms, es))
                } else {
                    match scan_text(f.content@, included, excluded) {
                        None => None,
                        Some((m2, e2)) => Some((ms + m2, es + e2)),
                    }
                }
            },
        }
    }
}

proof fn lemma_scan_all_none(
    files: Seq<SourceFile>,
    paths: Seq<Seq<char>>,
    included: Seq<Seq<char>>,
    excluded: Seq<Seq<char>>,
    n: int,
)
    requires
        0 <= n <= files.len(),
        scan_all(files.take(n), paths, included, excluded) is None,
    ensures
        scan_all(files, paths, included, excluded) is None,
    decreases files.len(),
{
    if n == files.len() {
        assert(files.take(n) =~= files);
    } else {
        assert(files.drop_last().take(n) =~= files.take(n));
        lemma_scan_all_none(files.drop_last(), paths, included, excluded, n);
    }
}

/// The schema snapshot of a set of source files: a version 1 snapshot stamped with the
/// current time, holding the models and edges of every selected file, in file order.
/// `None` where a selected file cannot be scanned.
pub fn scan_sources(opts: &ScanOptions, files: &Vec<SourceFile>) -> (r: Option<SchemaSnapshot>)
    ensures
        r is None <==> scan_all(files@, strs_view(opts.paths@), strs_view(opts.included@), strs_view(opts.excluded@)) is None,
        r matches Some(s) ==> s.version == 1 && scan_all(
            files@,
            strs_view(opts.paths@),
            strs_view(opts.included@),
            strs_view(opts.excluded@),
        ) == Some((s@.models, s@.edges)),
{
    let ghost paths = strs_view(opts.paths@);
    let ghost inc = strs_view(opts.included@);
    let ghost exc = strs_view(opts.excluded@);
    let mut snapshot = SchemaSnapshot::new();
    let mut i: usize = 0;
    assert(files@.take(0) =~= Seq::<SourceFile>::empty());
    assert(snapshot@.models =~= Seq::<ModelView>::empty());
    assert(snapshot@.edges =~= Seq::<EdgeView>::empty());
    while i < files.len()
        invariant
            0 <= i <= files@.len(),
            paths == strs_view(opts.paths@),
            inc == strs_view(opts.included@),
            exc == strs_view(opts.excluded@),
            snapshot.version == 1,
            scan_all(files@.take(i as int), paths, inc, exc) == Some((snapshot@.models, snapshot@.edges)),
        decreases files@.len() - i,
    {
        assert(files@.take(i + 1).drop_last() =~= files@.take(i as int));
        assert(files@.take(i + 1).last() == files@[i as int]);
        let file = &files[i];
        if is_path_selected(file.path.as_str(), &opts.paths) {
            match try_scan_file(file.content.as_str(), &opts.included, &opts.excluded) {
                None => {
                    proof {
                        lemma_scan_all_none(files@, paths, inc, exc, i + 1);
                    }
                    return None;
                },
                Some((ms, es)) => {
                    let ghost m0 = snapshot@.models;
                    let ghost e0 = snapshot@.edges;
                    let ghost mv = ms@.map_values(|m: Model| m@);
                    let ghost ev = es@.map_values(|e: Edge| e@);
                    let mut ms = ms;
                    let mut es = es;
                    snapshot.models.append(&mut ms);
                    snapshot.edges.append(&mut es);
                    assert(snapshot@.models =~= m0 + mv);
                    assert(snapshot@.edges =~= e0 + ev);
                },
            }
        }
        i += 1;
    }
    assert(files@.take(files@.len() as int) =~= files@);
    Some(snapshot)
}

} // verus!
