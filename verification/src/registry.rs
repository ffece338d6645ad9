//! Migration files on disk: their names, checksums and the operations they declare.
use vstd::prelude::*;
use sha2::Digest;
use crate::id::hex_digit;
use crate::pattern::{captures_all, captures_view, regex_captures};
use crate::scanner::{first_group, group};
use crate::schema_ops::{SchemaOp, SchemaOpView, ops_view};
use crate::text::{
    starts_with, starts_with_exec, chars_of, find_first, find_from_exec, lemma_find_from_bounds, lemma_split_nonempty, occurs_at_exec,
    owned, seq_lt, slice_vec, split_by, split_str, str_lt, string_from_chars, trim, trimmed,
};

verus! {

// ---------------------------------------------------------------------------
// File names
// ---------------------------------------------------------------------------

/// `s` ends with `suffix`.
pub open spec fn ends_with(s: Seq<char>, suffix: Seq<char>) -> bool {
    suffix.len() <= s.len() && s.subrange(s.len() - suffix.len(), s.len() as int) == suffix
}

/// Every character of `s` is an ASCII digit.
pub open spec fn all_digits(s: Seq<char>) -> bool {
    forall|i: int| 0 <= i < s.len() ==> '0' <= #[trigger] s[i] <= '9'
}

/// The id and description of a migration file named `<id>_<description>.rs`: split at the
/// first `_`, both parts non-empty. A name of digits alone (`<id>.rs`) has the description
/// `(no_description)`. `None` for any other name.
pub open spec fn migration_name(file_name: Seq<char>) -> Option<(Seq<char>, Seq<char>)> {
    if !ends_with(file_name, ".rs"@) {
        None
    } else {
        let rest = file_name.subrange(0, file_name.len() - ".rs"@.len());
        match find_first(rest, seq!['_']) {
            Some(idx) => {
                let id = rest.subrange(0, idx);
                let desc = rest.subrange(idx + 1, rest.len() as int);
                if id.len() > 0 && desc.len() > 0 {
                    Some((id, desc))
                } else {
                    None
                }
            },
            None => if all_digits(rest) {
                Some((rest, "(no_description)"@))
            } else {
                None
            },
        }
    }
}

/// The id and description in a migration file's name (see `migration_name`).
pub fn split_name(filename: &str) -> (r: Option<(String, String)>)
    ensures
        r matches Some((id, desc)) ==> migration_name(filename@) == Some((id@, desc@)),
        r is None ==> migration_name(filename@) is None,
{
    let v = chars_of(filename);
    let suffix = chars_of(".rs");
    proof {
        reveal_strlit(".rs");
    }
    if suffix.len() > v.len() || !occurs_at_exec(&v, &suffix, v.len() - suffix.len()) {
        return None;
    }
    let rest = slice_vec(&v, 0, v.len() - suffix.len());
    let underscore: Vec<char> = vec!['_'];
    assert(underscore@ =~= seq!['_']);
    let found = find_from_exec(&rest, &underscore, 0);
    proof {
        lemma_find_from_bounds(rest@, underscore@, 0);
    }
    match found {
        Some(idx) => {
            if idx > 0 && idx + 1 < rest.len() {
                let id = string_from_chars(slice_vec(&rest, 0, idx).as_slice());
                let desc = string_from_chars(slice_vec(&rest, idx + 1, rest.len()).as_slice());
                Some((id, desc))
            } else {
                None
            }
        },
        None => {
            let mut i: usize = 0;
            while i < rest.len()
                invariant
                    0 <= i <= rest@.len(),
                    ends_with(filename@, ".rs"@),
                    rest@ == filename@.subrange(0, filename@.len() - ".rs"@.len()),
                    find_first(rest@, seq!['_']) is None,
                    forall|k: int| 0 <= k < i ==> '0' <= #[trigger] rest@[k] <= '9',
                decreases rest@.len() - i,
            {
                if !('0' <= rest[i] && rest[i] <= '9') {
                    assert(!all_digits(rest@));
                    return None;
                }
                i += 1;
            }
            Some((string_from_chars(rest.as_slice()), owned("(no_description)")))
        },
    }
}

// ---------------------------------------------------------------------------
// Checksums
// ---------------------------------------------------------------------------

/// The SHA-256 digest of the UTF-8 bytes of a text.
pub uninterp spec fn sha256_of(content: Seq<char>) -> Seq<u8>;

/// SHA-256 of the UTF-8 bytes of `content` (`sha2::Sha256`: `new`, `update`, `finalize`).
/// The digest is named by `sha256_of`; it is 32 bytes long.
#[verifier::external_body]
fn sha256_digest(content: &str) -> (r: Vec<u8>)
    ensures
        r@ == sha256_of(content@),
        r@.len() == 32,
{
    let mut h = sha2::Sha256::new();
    h.update(content.as_bytes());
    h.finalize().to_vec()
}

/// Bytes as lower-case hexadecimal, two digits per byte, high nibble first.
pub open spec fn hex_lower(b: Seq<u8>) -> Seq<char>
    decreases b.len(),
{
    if b.len() == 0 {
        Seq::empty()
    } else {
        hex_lower(b.drop_last()) + seq![hex_digit((b.last() / 16) as u128), hex_digit((b.last() % 16) as u128)]
    }
}

/// `hex::encode`: each byte as two lower-case hexadecimal digits.
#[verifier::external_body]
fn hex_encode(bytes: &[u8]) -> (r: String)
    ensures
        r@ == hex_lower(bytes@),
{
    hex::encode(bytes)
}

/// The SHA-256 checksum of a text, in lower-case hexadecimal.
pub fn sha256_hex(content: &str) -> (r: String)
    ensures
        r@ == hex_lower(sha256_of(content@)),
        r@.len() == 64,
{
    let d = sha256_digest(content);
    let r = hex_encode(d.as_slice());
    proof {
        lemma_hex_len(d@);
    }
    r
}

/// Hex text is twice as long as the bytes.
proof fn lemma_hex_len(b: Seq<u8>)
    ensures
        hex_lower(b).len() == 2 * b.len(),
    decreases b.len(),
{
    if b.len() > 0 {
        lemma_hex_len(b.drop_last());
    }
}

// ---------------------------------------------------------------------------
// Declared operations
// ---------------------------------------------------------------------------

/// The body of the list an `up(..)` function returns (group 1).
pub const UP_FN: &'static str = r"up\([^)]*\)\s*->[^\{]*\{[^O]*Ok\(vec!\[(?P<body>[^;]*)\]\)";

/// The body of the list a `down(..)` function returns (group 1).
pub const DOWN_FN: &'static str = r"down\([^)]*\)\s*->[^\{]*\{[^O]*Ok\(vec!\[(?P<body>[^;]*)\]\)";

/// A `name: "..."` argument (group 1: the name).
pub const NAME_ARG: &'static str = r#"name:\s*\"([A-Za-z0-9_]+)\""#;

/// The `name: "..."` argument of an operation's text, if any.
pub open spec fn name_arg(part: Seq<char>) -> Option<Seq<char>> {
    match regex_captures(NAME_ARG@, part) {
        Some(caps) => first_group(caps, 1),
        None => None,
    }
}

/// The `name: "..."` argument of an operation's text.
pub fn extract_string_arg(part: &str) -> (r: Option<String>)
    ensures
        r matches Some(n) ==> name_arg(part@) == Some(n@),
        r is None ==> name_arg(part@) is None,
{
    match captures_all(NAME_ARG, part) {
        None => None,
        Some(caps) => {
            if caps.len() == 0 {
                return None;
            }
            assert(captures_view(Some(caps)).unwrap()[0] == crate::pattern::groups_view(caps@[0]));
            if 1 < caps[0].len() {
                match &caps[0][1] {
                    Some(t) => Some(owned(t.as_str())),
                    None => None,
                }
            } else {
                None
            }
        },
    }
}

/// The operation an operation's text declares: the table and edge creations and drops,
/// read by kind and name (field lists and endpoints are not read back). Field
/// additions and drops, and anything else, give nothing.
pub open spec fn op_from_part(part: Seq<char>) -> Option<SchemaOpView> {
    let t = trim(part);
    if starts_with(t, "CreateTable"@) {
        match name_arg(t) {
            Some(n) => Some(SchemaOpView::CreateTable { name: n, fields: Seq::empty() }),
            None => None,
        }
    } else if starts_with(t, "DropTable"@) {
        match name_arg(t) {
            Some(n) => Some(SchemaOpView::DropTable { name: n }),
            None => None,
        }
    } else if starts_with(t, "AddField"@) || starts_with(t, "DropField"@) {
        None
    } else if starts_with(t, "CreateEdge"@) {
        match name_arg(t) {
            Some(n) => Some(
                SchemaOpView::CreateEdge { name: n, from: Seq::empty(), to: Seq::empty(), fields: Seq::empty() },
            ),
            None => None,
        }
    } else if starts_with(t, "DropEdge"@) {
        match name_arg(t) {
            Some(n) => Some(SchemaOpView::DropEdge { name: n }),
            None => None,
        }
    } else {
        None
    }
}

/// The operations declared by a list of operation texts, in order.
pub open spec fn ops_from_parts(parts: Seq<Seq<char>>) -> Seq<SchemaOpView>
    decreases parts.len(),
{
    if parts.len() == 0 {
        Seq::empty()
    } else {
        match op_from_part(parts.last()) {
            Some(op) => ops_from_parts(parts.drop_last()).push(op),
            None => ops_from_parts(parts.drop_last()),
        }
    }
}

/// The operations of a list body: the texts after each `SchemaOp::`, read one by one.
pub open spec fn op_list(body: Seq<char>) -> Seq<SchemaOpView> {
    ops_from_parts(split_by(body, "SchemaOp::"@).drop_first())
}

/// The operation an operation's text declares, if any.
fn op_of_part(part: &str) -> (r: Option<SchemaOp>)
    ensures
        r matches Some(op) ==> op_from_part(part@) == Some(op@),
        r is None ==> op_from_part(part@) is None,
{
    let v = chars_of(part);
    let t = trimmed(&v, 0, v.len());
    assert(v@.subrange(0, v@.len() as int) =~= v@);
    let ts = string_from_chars(t.as_slice());
    if starts_with_exec(&t, "CreateTable") {
        match extract_string_arg(ts.as_str()) {
            Some(name) => {
                let op = SchemaOp::CreateTable { name, fields: Vec::new() };
                assert(crate::schema_ops::field_defs_view(Seq::empty()) =~= Seq::empty());
                Some(op)
            },
            None => None,
        }
    } else if starts_with_exec(&t, "DropTable") {
        match extract_string_arg(ts.as_str()) {
            Some(name) => Some(SchemaOp::DropTable { name }),
            None => None,
        }
    } else if starts_with_exec(&t, "AddField") || starts_with_exec(&t, "DropField") {
        None
    } else if starts_with_exec(&t, "CreateEdge") {
        match extract_string_arg(ts.as_str()) {
            Some(name) => {
                let op = SchemaOp::CreateEdge { name, from: String::new(), to: String::new(), fields: Vec::new() };
                assert(crate::schema_ops::field_defs_view(Seq::empty()) =~= Seq::empty());
                Some(op)
            },
            None => None,
        }
    } else if starts_with_exec(&t, "DropEdge") {
        match extract_string_arg(ts.as_str()) {
            Some(name) => Some(SchemaOp::DropEdge { name }),
            None => None,
        }
    } else {
        None
    }
}

/// The operations declared in the body of an operation list.
pub fn parse_op_list(body: &str) -> (r: Vec<SchemaOp>)
    ensures
        ops_view(r@) == op_list(body@),
{
    let v = chars_of(body);
    let sep = chars_of("SchemaOp::");
    proof {
        reveal_strlit("SchemaOp::");
    }
    let parts = split_str(&v, &sep);
    let ghost pv = parts@.map_values(|x: String| x@);
    proof {
        lemma_split_nonempty(v@, sep@);
    }
    let mut ops: Vec<SchemaOp> = Vec::new();
    let mut i: usize = 1;
    assert(pv.subrange(1, 1) =~= Seq::<Seq<char>>::empty());
    while i < parts.len()
        invariant
            1 <= i <= parts@.len(),
            pv == parts@.map_values(|x: String| x@),
            pv == split_by(body@, "SchemaOp::"@),
            ops_view(ops@) == ops_from_parts(pv.subrange(1, i as int)),
        decreases parts@.len() - i,
    {
        assert(pv.subrange(1, i + 1).drop_last() =~= pv.subrange(1, i as int));
        assert(pv.subrange(1, i + 1).last() == parts@[i as int]@);
        match op_of_part(parts[i].as_str()) {
            Some(op) => {
                let ghost before = ops_view(ops@);
                ops.push(op);
                assert(ops_view(ops@) =~= before.push(op@));
            },
            None => {},
        }
        i += 1;
    }
    assert(pv.subrange(1, pv.len() as int) =~= pv.drop_first());
    ops
}

/// The body of the first match of an operation-list pattern; empty where nothing matched.
pub open spec fn op_body(caps: Seq<Seq<Option<Seq<char>>>>) -> Seq<char> {
    match first_group(caps, 1) {
        Some(b) => b,
        None => Seq::empty(),
    }
}

/// The operations a migration source declares in `up` and in `down`; `None` where the
/// patterns that find them do not compile.
pub open spec fn migration_ops(content: Seq<char>) -> Option<(Seq<SchemaOpView>, Seq<SchemaOpView>)> {
    match (regex_captures(UP_FN@, content), regex_captures(DOWN_FN@, content)) {
        (Some(u), Some(d)) => Some((op_list(op_body(u)), op_list(op_body(d)))),
        _ => None,
    }
}

/// The body of the first match of `pattern` in `content`.
fn body_of(pattern: &str, content: &str) -> (r: Option<String>)
    ensures
        r matches Some(b) ==> (match regex_captures(pattern@, content@) {
            Some(caps) => op_body(caps) == b@,
            None => false,
        }),
        r is None ==> regex_captures(pattern@, content@) is None,
{
    match captures_all(pattern, content) {
        None => None,
        Some(caps) => {
            if caps.len() == 0 {
                return Some(String::new());
            }
            assert(captures_view(Some(caps)).unwrap()[0] == crate::pattern::groups_view(caps@[0]));
            if 1 < caps[0].len() {
                match &caps[0][1] {
                    Some(t) => Some(owned(t.as_str())),
                    None => Some(String::new()),
                }
            } else {
                Some(String::new())
            }
        },
    }
}

/// The operations declared in `up` and in `down` of a migration source.
fn parse_ops(content: &str) -> (r: Option<(Vec<SchemaOp>, Vec<SchemaOp>)>)
    ensures
        r is None <==> migration_ops(content@) is None,
        r matches Some((f, b)) ==> migration_ops(content@) == Some((ops_view(f@), ops_view(b@))),
{
    let up = body_of(UP_FN, content);
    let down = body_of(DOWN_FN, content);
    match (up, down) {
        (Some(u), Some(d)) => Some((parse_op_list(u.as_str()), parse_op_list(d.as_str()))),
        _ => None,
    }
}

// ---------------------------------------------------------------------------
// Discovery
// ---------------------------------------------------------------------------

/// A migration file: its id and description (from its name), the checksum of its text,
/// its path, and the operations its `up` and `down` declare.
#[derive(Debug, Clone)]
pub struct MigrationFile {
    pub id: String,
    pub description: String,
    pub checksum: String,
    pub path: String,
    pub ops_forward: Vec<SchemaOp>,
    pub ops_reverse: Vec<SchemaOp>,
}

/// Mathematical value of a [`MigrationFile`].
pub struct MigrationView {
    pub id: Seq<char>,
    pub description: Seq<char>,
    pub checksum: Seq<char>,
    pub path: Seq<char>,
    pub ops_forward: Seq<SchemaOpView>,
    pub ops_reverse: Seq<SchemaOpView>,
}

impl View for MigrationFile {
    type V = MigrationView;

    open spec fn view(&self) -> MigrationView {
        MigrationView {
            id: self.id@,
            description: self.description@,
            checksum: self.checksum@,
            path: self.path@,
            ops_forward: ops_view(self.ops_forward@),
            ops_reverse: ops_view(self.ops_reverse@),
        }
    }
}

/// A file of the migrations directory: its name, its path and its text.
#[derive(Debug, Clone)]
pub struct MigrationSource {
    pub file_name: String,
    pub path: String,
    pub content: String,
}

/// The migration a file holds: `Some(None)` where its name is not a migration's, `None`
/// where its operations cannot be read.
pub open spec fn migration_of(src: MigrationSource) -> Option<Option<MigrationView>> {
    match migration_name(src.file_name@) {
        None => Some(None),
        Some((id, desc)) => match migration_ops(src.content@) {
            None => None,
            Some((fwd, rev)) => Some(Some(MigrationView {
                id,
                description: desc,
                checksum: hex_lower(sha256_of(src.content@)),
                path: src.path@,
                ops_forward: fwd,
                ops_reverse: rev,
            })),
        },
    }
}

/// The migrations held by a list of files, in file order.
pub open spec fn migrations_of(srcs: Seq<MigrationSource>) -> Option<Seq<MigrationView>>
    decreases srcs.len(),
{
    if srcs.len() == 0 {
        Some(Seq::empty())
    } else {
        match (migrations_of(srcs.drop_last()), migration_of(srcs.last())) {
            (Some(ms), Some(Some(m))) => Some(ms.push(m)),
            (Some(ms), Some(None)) => Some(ms),
            _ => None,
        }
    }
}

proof fn lemma_migrations_of_none(srcs: Seq<MigrationSource>, n: int)
    requires
        0 <= n <= srcs.len(),
        migrations_of(srcs.take(n)) is None,
    ensures
        migrations_of(srcs) is None,
    decreases srcs.len(),
{
    if n == srcs.len() {
        assert(srcs.take(n) =~= srcs);
    } else {
        assert(srcs.drop_last().take(n) =~= srcs.take(n));
        lemma_migrations_of_none(srcs.drop_last(), n);
    }
}

/// The position before the first migration whose id sorts after `id`.
pub open spec fn insert_pos(s: Seq<MigrationView>, id: Seq<char>) -> int
    decreases s.len(),
{
    if s.len() == 0 {
        0
    } else if seq_lt(id, s[0].id) {
        0
    } else {
        1 + insert_pos(s.drop_first(), id)
    }
}

/// Migrations ordered by id, stably: each one goes after every earlier one whose id does
/// not sort after its own.
pub open spec fn sort_by_id(s: Seq<MigrationView>) -> Seq<MigrationView>
    decreases s.len(),
{
    if s.len() == 0 {
        s
    } else {
        let rest = sort_by_id(s.drop_last());
        rest.insert(insert_pos(rest, s.last().id), s.last())
    }
}

/// The migration a file holds, if its name is a migration's.
fn read_migration(src: &MigrationSource) -> (r: Option<Option<MigrationFile>>)
    ensures
        r is None <==> migration_of(*src) is None,
        r matches Some(None) ==> migration_of(*src) == Some(None::<MigrationView>),
        r matches Some(Some(m)) ==> migration_of(*src) == Some(Some(m@)),
{
    match split_name(src.file_name.as_str()) {
        None => Some(None),
        Some((id, description)) => {
            let checksum = sha256_hex(src.content.as_str());
            match parse_ops(src.content.as_str()) {
                None => None,
                Some((ops_forward, ops_reverse)) => Some(Some(MigrationFile {
                    id,
                    description,
                    checksum,
                    path: owned(src.path.as_str()),
                    ops_forward,
                    ops_reverse,
                })),
            }
        },
    }
}

/// Inserts `m` into `v` after every migration whose id does not sort after its own.
fn insert_by_id(v: &mut Vec<MigrationFile>, m: MigrationFile)
    ensures
        final(v)@.map_values(|x: MigrationFile| x@) == old(v)@.map_values(|x: MigrationFile| x@).insert(
            insert_pos(old(v)@.map_values(|x: MigrationFile| x@), m@.id),
            m@,
        ),
{
    let ghost sv = v@.map_values(|x: MigrationFile| x@);
    let mut k: usize = 0;
    assert(sv.skip(0) =~= sv);
    while k < v.len() && !str_lt(m.id.as_str(), v[k].id.as_str())
        invariant
            0 <= k <= v@.len(),
            sv == v@.map_values(|x: MigrationFile| x@),
            insert_pos(sv, m@.id) == k + insert_pos(sv.skip(k as int), m@.id),
        decreases v@.len() - k,
    {
        assert(sv.skip(k as int).drop_first() =~= sv.skip(k + 1));
        assert(sv.skip(k as int)[0] == v@[k as int]@);
        k += 1;
    }
    proof {
        if k < v@.len() {
            assert(sv.skip(k as int)[0] == v@[k as int]@);
        } else {
            assert(sv.skip(k as int) =~= Seq::<MigrationView>::empty());
        }
    }
    let ghost mv = m@;
    v.insert(k, m);
    assert(v@.map_values(|x: MigrationFile| x@) =~= sv.insert(k as int, mv));
}

/// The migrations among a list of files, ordered by id (stably: files with equal ids keep
/// their order). A file counts where its name is `<id>_<description>.rs` or `<digits>.rs`;
/// its checksum is the SHA-256 of its text. `None` where the operations of a counted file
/// cannot be read.
pub fn discover_migrations(sources: &Vec<MigrationSource>) -> (r: Option<Vec<MigrationFile>>)
    ensures
        r is None <==> migrations_of(sources@) is None,
        r matches Some(v) ==> migrations_of(sources@) matches Some(ms) && v@.map_values(
            |x: MigrationFile| x@,
        ) == sort_by_id(ms),
{
    let mut entries: Vec<MigrationFile> = Vec::new();
    let mut i: usize = 0;
    assert(sources@.take(0) =~= Seq::<MigrationSource>::empty());
    while i < sources.len()
        invariant
            0 <= i <= sources@.len(),
            migrations_of(sources@.take(i as int)) matches Some(ms) && sort_by_id(ms)
                == entries@.map_values(|x: MigrationFile| x@),
        decreases sources@.len() - i,
    {
        assert(sources@.take(i + 1).drop_last() =~= sources@.take(i as int));
        assert(sources@.take(i + 1).last() == sources@[i as int]);
        let ghost ms = migrations_of(sources@.take(i as int)).unwrap();
        match read_migration(&sources[i]) {
            None => {
                proof {
                    lemma_migrations_of_none(sources@, i + 1);
                }
                return None;
            },
            Some(None) => {},
            Some(Some(m)) => {
                let ghost mv = m@;
                insert_by_id(&mut entries, m);
                assert(ms.push(mv).drop_last() =~= ms);
            },
        }
        i += 1;
    }
    assert(sources@.take(sources@.len() as int) =~= sources@);
    Some(entries)
}

// ---------------------------------------------------------------------------
// Order of discovered migrations
// ---------------------------------------------------------------------------

/// No migration sorts before an earlier one.
pub open spec fn ordered_by_id(s: Seq<MigrationView>) -> bool {
    forall|i: int, j: int| 0 <= i < j < s.len() ==> !seq_lt(#[trigger] s[j].id, #[trigger] s[i].id)
}

/// The insertion position lies in the list; no earlier id sorts after the inserted one,
/// and the id at the position does.
proof fn lemma_insert_pos(s: Seq<MigrationView>, id: Seq<char>)
    ensures
        0 <= insert_pos(s, id) <= s.len(),
        forall|i: int| 0 <= i < insert_pos(s, id) ==> !seq_lt(id, #[trigger] s[i].id),
        insert_pos(s, id) < s.len() ==> seq_lt(id, s[insert_pos(s, id)].id),
    decreases s.len(),
{
    if s.len() > 0 && !seq_lt(id, s[0].id) {
        lemma_insert_pos(s.drop_first(), id);
        assert forall|i: int| 0 <= i < insert_pos(s, id) implies !seq_lt(id, #[trigger] s[i].id) by {
            if i > 0 {
                assert(s[i] == s.drop_first()[i - 1]);
            }
        }
    }
}

/// The migrations that discovery returns are ordered by id, and they are the migrations
/// found, each exactly as often as it was found.
pub proof fn lemma_discovered_in_id_order(s: Seq<MigrationView>)
    ensures
        ordered_by_id(sort_by_id(s)),
        sort_by_id(s).to_multiset() == s.to_multiset(),
    decreases s.len(),
{
    if s.len() > 0 {
        let rest = sort_by_id(s.drop_last());
        let m = s.last();
        lemma_discovered_in_id_order(s.drop_last());
        lemma_insert_pos(rest, m.id);
        let k = insert_pos(rest, m.id);
        let t = rest.insert(k, m);
        assert(t == sort_by_id(s));
        assert forall|i: int, j: int| 0 <= i < j < t.len() implies !seq_lt(#[trigger] t[j].id, #[trigger] t[i].id) by {
            if j < k {
                assert(t[i] == rest[i] && t[j] == rest[j]);
            } else if j == k {
                assert(t[i] == rest[i]);
                assert(t[j] == m);
            } else if i < k {
                assert(t[i] == rest[i] && t[j] == rest[j - 1]);
            } else if i == k {
                assert(t[i] == m && t[j] == rest[j - 1]);
                let a = rest[k].id;
                let b = rest[j - 1].id;
                crate::text::lemma_lt_total(a, b);
                if a != b {
                    if seq_lt(b, a) {
                        assert(!seq_lt(rest[j - 1].id, rest[k].id));
                    }
                    crate::text::lemma_lt_transitive(m.id, a, b);
                }
                crate::text::lemma_lt_asymmetric(m.id, b);
            } else {
                assert(t[i] == rest[i - 1] && t[j] == rest[j - 1]);
            }
        }
        vstd::seq_lib::to_multiset_insert(rest, k, m);
        vstd::seq_lib::to_multiset_build(s.drop_last(), m);
        assert(s.drop_last().push(m) =~= s);
    }
}

} // verus!
