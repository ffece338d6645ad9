//! The decisions of `junction init`: which package to configure, what the prompts offer,
//! and the configuration and manifest changes the answers give.
use vstd::prelude::*;
use toml_edit::Table as TomlTable;
use toml_edit::DocumentMut;
use crate::config::{DatabaseConfig, ModelsConfig, RootConfig, strings_view};
use crate::migration::join;
use crate::text::{lemma_split_char_front, lemma_split_char_whole, lemma_trim_start_space, chars_of, owned, push_str, seq_lt, split_by, split_str, str_eq, str_lt, string_from_chars, trim, trimmed};

verus! {

// ---------------------------------------------------------------------------
// Lists typed as text
// ---------------------------------------------------------------------------

/// Values shown as one line: joined with `, `.
pub fn join_display(values: &Vec<String>) -> (r: String)
    ensures
        r@ == join(strings_view(values@), ", "@),
{
    let ghost sv = strings_view(values@);
    let mut r = String::new();
    let mut i: usize = 0;
    while i < values.len()
        invariant
            0 <= i <= values@.len(),
            sv == strings_view(values@),
            r@ == join(sv.take(i as int), ", "@),
        decreases values@.len() - i,
    {
        assert(sv.take(i + 1).drop_last() =~= sv.take(i as int));
        assert(sv[i as int] == values@[i as int]@);
        if i > 0 {
            push_str(&mut r, ", ");
        } else {
            assert(sv.take(0) =~= Seq::<Seq<char>>::empty());
        }
        let ghost before = r@;
        push_str(&mut r, values[i].as_str());
        proof {
            if i == 0 {
                assert(before + values@[0]@ =~= values@[0]@);
            }
        }
        i += 1;
    }
    assert(sv.take(values@.len() as int) =~= sv);
    r
}

/// The non-empty trimmed pieces of a list of pieces, in order.
pub open spec fn csv_items(parts: Seq<Seq<char>>) -> Seq<Seq<char>>
    decreases parts.len(),
{
    if parts.len() == 0 {
        Seq::empty()
    } else if trim(parts.last()).len() == 0 {
        csv_items(parts.drop_last())
    } else {
        csv_items(parts.drop_last()).push(trim(parts.last()))
    }
}

/// The items of a comma-separated answer: split at `,`, trimmed, empty ones dropped.
pub fn split_csv(input: &str) -> (r: Vec<String>)
    ensures
        strings_view(r@) == csv_items(split_by(input@, seq![','])),
{
    let v = chars_of(input);
    let comma: Vec<char> = vec![','];
    assert(comma@ =~= seq![',']);
    let parts = split_str(&v, &comma);
    let ghost pv = parts@.map_values(|x: String| x@);
    let mut out: Vec<String> = Vec::new();
    let mut i: usize = 0;
    while i < parts.len()
        invariant
            0 <= i <= parts@.len(),
            pv == parts@.map_values(|x: String| x@),
            pv == split_by(input@, seq![',']),
            strings_view(out@) == csv_items(pv.take(i as int)),
        decreases parts@.len() - i,
    {
        assert(pv.take(i + 1).drop_last() =~= pv.take(i as int));
        assert(pv.take(i + 1).last() == parts@[i as int]@);
        let p = chars_of(parts[i].as_str());
        let t = trimmed(&p, 0, p.len());
        assert(p@.subrange(0, p@.len() as int) =~= p@);
        if t.len() > 0 {
            let s = string_from_chars(t.as_slice());
            let ghost before = strings_view(out@);
            out.push(s);
            assert(strings_view(out@) =~= before.push(t@));
        }
        i += 1;
    }
    assert(pv.take(parts@.len() as int) =~= pv);
    out
}

// ---------------------------------------------------------------------------
// Choosing the package
// ---------------------------------------------------------------------------

/// A package of the workspace: its id, its name, its manifest's path, and that path as
/// shown (relative to the workspace root where it lies under it).
#[derive(Debug, Clone)]
pub struct PackageInfo {
    pub id: String,
    pub name: String,
    pub manifest_path: String,
    pub display_path: String,
}

/// Mathematical value of a [`PackageInfo`].
pub struct PackageView {
    pub id: Seq<char>,
    pub name: Seq<char>,
    pub manifest_path: Seq<char>,
    pub display_path: Seq<char>,
}

impl View for PackageInfo {
    type V = PackageView;

    open spec fn view(&self) -> PackageView {
        PackageView { id: self.id@, name: self.name@, manifest_path: self.manifest_path@, display_path: self.display_path@ }
    }
}

/// The values of a list of packages.
pub open spec fn packages_view(v: Seq<PackageInfo>) -> Seq<PackageView> {
    v.map_values(|p: PackageInfo| p@)
}

/// The packages that are workspace members, in order.
pub open spec fn member_packages(ps: Seq<PackageView>, members: Seq<Seq<char>>) -> Seq<PackageView>
    decreases ps.len(),
{
    if ps.len() == 0 {
        Seq::empty()
    } else if members.contains(ps.last().id) {
        member_packages(ps.drop_last(), members).push(ps.last())
    } else {
        member_packages(ps.drop_last(), members)
    }
}

/// The position before the first package whose name sorts after `name`.
pub open spec fn package_pos(s: Seq<PackageView>, name: Seq<char>) -> int
    decreases s.len(),
{
    if s.len() == 0 {
        0
    } else if seq_lt(name, s[0].name) {
        0
    } else {
        1 + package_pos(s.drop_first(), name)
    }
}

/// Packages ordered by name, stably.
pub open spec fn sort_by_name(s: Seq<PackageView>) -> Seq<PackageView>
    decreases s.len(),
{
    if s.len() == 0 {
        s
    } else {
        let rest = sort_by_name(s.drop_last());
        rest.insert(package_pos(rest, s.last().name), s.last())
    }
}

/// The position of the first package whose manifest is `manifest`, else 0.
pub open spec fn manifest_pos(s: Seq<PackageView>, manifest: Seq<char>) -> int
    decreases s.len(),
{
    if s.len() == 0 {
        0
    } else if s.last().manifest_path == manifest && !(exists|k: int| 0 <= k < s.len() - 1 && s[k].manifest_path == manifest) {
        s.len() - 1
    } else {
        manifest_pos(s.drop_last(), manifest)
    }
}

/// The label of a package in the selection prompt: `name (path)`.
pub open spec fn package_label(p: PackageView) -> Seq<char> {
    p.name + " ("@ + p.display_path + ")"@
}

/// The packages offered, ordered by name; the one preselected; and the prompt's labels.
#[derive(Debug, Clone)]
pub struct PackageChoice {
    pub packages: Vec<PackageInfo>,
    pub default_index: usize,
    pub options: Vec<String>,
}

/// Why `init` stopped.
#[derive(Debug, Clone, Copy, PartialEq, Eq, Structural)]
pub enum InitError {
    NoPackages,
}

impl InitError {
    /// The error's text.
    pub fn message(&self) -> (r: &'static str)
        ensures
            r@ == "No packages found in workspace to configure"@,
    {
        "No packages found in workspace to configure"
    }
}

/// Inserts a package after every package whose name does not sort after its own.
fn insert_by_name(v: &mut Vec<PackageInfo>, p: PackageInfo)
    ensures
        packages_view(final(v)@) == packages_view(old(v)@).insert(package_pos(packages_view(old(v)@), p@.name), p@),
{
    let ghost sv = packages_view(v@);
    let mut k: usize = 0;
    assert(sv.skip(0) =~= sv);
    while k < v.len() && !str_lt(p.name.as_str(), v[k].name.as_str())
        invariant
            0 <= k <= v@.len(),
            sv == packages_view(v@),
            package_pos(sv, p@.name) == k + package_pos(sv.skip(k as int), p@.name),
        decreases v@.len() - k,
    {
        assert(sv.skip(k as int).drop_first() =~= sv.skip(k + 1));
        assert(sv.skip(k as int)[0] == v@[k as int]@);
        k += 1;
    }
    proof {
        if k < v@.len() {
            assert(sv.skip(k as int)[0] == v@[k as int]@);
        } else {
            assert(sv.skip(k as int) =~= Seq::<PackageView>::empty());
        }
    }
    let ghost pv = p@;
    v.insert(k, p);
    assert(packages_view(v@) =~= sv.insert(k as int, pv));
}

/// Whether `id` is one of `members`.
fn is_member(members: &Vec<String>, id: &str) -> (r: bool)
    ensures
        r == strings_view(members@).contains(id@),
{
    let mut i: usize = 0;
    while i < members.len()
        invariant
            0 <= i <= members@.len(),
            forall|k: int| 0 <= k < i ==> members@[k]@ != id@,
        decreases members@.len() - i,
    {
        if str_eq(members[i].as_str(), id) {
            assert(strings_view(members@)[i as int] == id@);
            return true;
        }
        i += 1;
    }
    proof {
        if strings_view(members@).contains(id@) {
            let k = choose|k: int| 0 <= k < strings_view(members@).len() && strings_view(members@)[k] == id@;
            assert(members@[k]@ == id@);
        }
    }
    false
}

/// The package choice `init` offers: the workspace members among `packages`, ordered by
/// name (stably), the one whose manifest is `current_manifest` preselected (else the
/// first), labelled `name (path)`. `NoPackages` where no package is a member. Manifest paths
/// are compared as text, so callers pass them in one written form (each path rebuilt from
/// its components).
pub fn select_package(packages: &Vec<PackageInfo>, members: &Vec<String>, current_manifest: Option<&str>) -> (r: Result<PackageChoice, InitError>)
    ensures
        r is Err <==> member_packages(packages_view(packages@), strings_view(members@)).len() == 0,
        r matches Ok(c) ==> {
            let sorted = sort_by_name(member_packages(packages_view(packages@), strings_view(members@)));
            &&& packages_view(c.packages@) == sorted
            &&& c.default_index == (match current_manifest {
                Some(m) => manifest_pos(sorted, m@),
                None => 0,
            })
            &&& strings_view(c.options@) == sorted.map_values(|p: PackageView| package_label(p))
        },
{
    let ghost ms = strings_view(members@);
    let ghost all = packages_view(packages@);
    let mut sorted: Vec<PackageInfo> = Vec::new();
    let mut count: usize = 0;
    let mut i: usize = 0;
    assert(all.take(0) =~= Seq::<PackageView>::empty());
    while i < packages.len()
        invariant
            0 <= i <= packages@.len(),
            ms == strings_view(members@),
            all == packages_view(packages@),
            count == member_packages(all.take(i as int), ms).len(),
            count <= i,
            packages_view(sorted@) == sort_by_name(member_packages(all.take(i as int), ms)),
        decreases packages@.len() - i,
    {
        assert(all.take(i + 1).drop_last() =~= all.take(i as int));
        assert(all.take(i + 1).last() == packages@[i as int]@);
        let p = &packages[i];
        if is_member(members, p.id.as_str()) {
            let q = PackageInfo {
                id: owned(p.id.as_str()),
                name: owned(p.name.as_str()),
                manifest_path: owned(p.manifest_path.as_str()),
                display_path: owned(p.display_path.as_str()),
            };
            let ghost m = member_packages(all.take(i as int), ms);
            insert_by_name(&mut sorted, q);
            assert(m.push(p@).drop_last() =~= m);
            count += 1;
        }
        i += 1;
    }
    assert(all.take(packages@.len() as int) =~= all);
    if count == 0 {
        return Err(InitError::NoPackages);
    }
    let ghost sv = packages_view(sorted@);
    let default_index = match current_manifest {
        Some(m) => manifest_index(&sorted, m),
        None => 0,
    };
    let mut options: Vec<String> = Vec::new();
    let mut k: usize = 0;
    while k < sorted.len()
        invariant
            0 <= k <= sorted@.len(),
            sv == packages_view(sorted@),
            strings_view(options@) == sv.take(k as int).map_values(|p: PackageView| package_label(p)),
        decreases sorted@.len() - k,
    {
        let p = &sorted[k];
        let mut label = owned(p.name.as_str());
        push_str(&mut label, " (");
        push_str(&mut label, p.display_path.as_str());
        push_str(&mut label, ")");
        let ghost before = strings_view(options@);
        options.push(label);
        assert(sv[k as int] == p@);
        assert(sv.take(k + 1) =~= sv.take(k as int).push(sv[k as int]));
        assert(strings_view(options@) =~= before.push(package_label(p@)));
        assert(strings_view(options@) =~= sv.take(k + 1).map_values(|p: PackageView| package_label(p)));
        k += 1;
    }
    assert(sv.take(sorted@.len() as int) =~= sv);
    Ok(PackageChoice { packages: sorted, default_index, options })
}

/// The position of the first package with the given manifest, else 0.
fn manifest_index(v: &Vec<PackageInfo>, manifest: &str) -> (r: usize)
    ensures
        r == manifest_pos(packages_view(v@), manifest@),
{
    let ghost sv = packages_view(v@);
    let mut k: usize = 0;
    while k < v.len()
        invariant
            0 <= k <= v@.len(),
            sv == packages_view(v@),
            forall|j: int| 0 <= j < k ==> sv[j].manifest_path != manifest@,
        decreases v@.len() - k,
    {
        if str_eq(v[k].manifest_path.as_str(), manifest) {
            proof {
                lemma_manifest_pos_first(sv, manifest@, k as int);
            }
            return k;
        }
        k += 1;
    }
    proof {
        lemma_manifest_pos_absent(sv, manifest@);
    }
    0
}

/// `manifest_pos` finds the first package with the manifest.
proof fn lemma_manifest_pos_first(s: Seq<PackageView>, m: Seq<char>, k: int)
    requires
        0 <= k < s.len(),
        s[k].manifest_path == m,
        forall|j: int| 0 <= j < k ==> s[j].manifest_path != m,
    ensures
        manifest_pos(s, m) == k,
    decreases s.len(),
{
    if k < s.len() - 1 {
        assert(exists|j: int| 0 <= j < s.len() - 1 && s[j].manifest_path == m);
        lemma_manifest_pos_first(s.drop_last(), m, k);
    }
}

/// `manifest_pos` is 0 where no package has the manifest.
proof fn lemma_manifest_pos_absent(s: Seq<PackageView>, m: Seq<char>)
    requires
        forall|j: int| 0 <= j < s.len() ==> s[j].manifest_path != m,
    ensures
        manifest_pos(s, m) == 0,
    decreases s.len(),
{
    if s.len() > 0 {
        lemma_manifest_pos_absent(s.drop_last(), m);
    }
}

// ---------------------------------------------------------------------------
// Prompts and answers
// ---------------------------------------------------------------------------

/// The database adapters `init` offers.
pub fn adapter_options() -> (r: Vec<String>)
    ensures
        strings_view(r@) == seq!["surreal"@],
{
    let r = vec![owned("surreal")];
    assert(strings_view(r@) =~= seq!["surreal"@]);
    r
}

/// The position of `adapter` among the options, else 0.
pub fn adapter_default_index(options: &Vec<String>, adapter: &str) -> (r: usize)
    ensures
        (exists|k: int| 0 <= k < options@.len() && options@[k]@ == adapter@) ==> r < options@.len()
            && options@[r as int]@ == adapter@ && forall|k: int| 0 <= k < r ==> options@[k]@ != adapter@,
        (forall|k: int| 0 <= k < options@.len() ==> options@[k]@ != adapter@) ==> r == 0,
{
    let mut i: usize = 0;
    while i < options.len()
        invariant
            0 <= i <= options@.len(),
            forall|k: int| 0 <= k < i ==> options@[k]@ != adapter@,
        decreases options@.len() - i,
    {
        if str_eq(options[i].as_str(), adapter) {
            return i;
        }
        i += 1;
    }
    0
}

/// What the prompts of `init` offer by default.
#[derive(Debug, Clone)]
pub struct InitDefaults {
    pub project_name: String,
    pub paths: String,
    pub included: String,
    pub excluded: String,
    pub migrations_dir: String,
    pub adapter_index: usize,
    pub db_url: String,
    pub db_namespace: String,
    pub db_database: String,
}

/// The prompts' defaults for a package: the package's name, then the default configuration
/// shown as text (lists joined with `, `).
pub fn init_defaults(package_name: &str) -> (r: InitDefaults)
    ensures
        r.project_name@ == package_name@,
        r.paths@ == "crates/**/*.rs"@,
        r.included@ == ".*"@,
        r.excluded@ == Seq::<char>::empty(),
        r.migrations_dir@ == "migrations"@,
        r.adapter_index == 0,
        r.db_url@ == "memory"@,
        r.db_namespace@ == "test"@,
        r.db_database@ == "test"@,
{
    let defaults = RootConfig::default();
    let project_name = match defaults.project.name {
        Some(n) => n,
        None => owned(package_name),
    };
    let paths = join_display(&defaults.models.paths);
    let included = join_display(&defaults.models.included);
    let excluded = join_display(&defaults.models.excluded);
    assert(strings_view(defaults.models.excluded@) =~= Seq::<Seq<char>>::empty());
    let options = adapter_options();
    let adapter_index = adapter_default_index(&options, defaults.database.adapter.as_str());
    proof {
        assert(strings_view(options@).len() == options@.len());
        assert(options@[0]@ == strings_view(options@)[0]);
        assert(options@[0]@ == defaults.database.adapter@);
    }
    let db_url = match defaults.database.url {
        Some(u) => u,
        None => owned("memory"),
    };
    let db_namespace = match defaults.database.namespace {
        Some(n) => n,
        None => owned("test"),
    };
    let db_database = match defaults.database.database {
        Some(d) => d,
        None => owned("test"),
    };
    InitDefaults {
        project_name,
        paths,
        included,
        excluded,
        migrations_dir: defaults.migrations.dir,
        adapter_index,
        db_url,
        db_namespace,
        db_database,
    }
}

/// The answers given to the prompts of `init` (lists as typed, comma separated).
#[derive(Debug, Clone)]
pub struct InitAnswers {
    pub project_name: String,
    pub paths: String,
    pub included: String,
    pub excluded: String,
    pub migrations_dir: String,
    pub adapter_index: usize,
    pub db_url: String,
    pub db_namespace: String,
    pub db_database: String,
}

/// The configuration the answers give: the default configuration with the project name,
/// the model patterns (split at commas), the migrations directory, and the database
/// (the chosen adapter, URL, namespace and database) taken from the answers.
pub fn init_config(answers: InitAnswers) -> (r: RootConfig)
    requires
        answers.adapter_index < 1,
    ensures
        r.project.name matches Some(n) && n@ == answers.project_name@,
        strings_view(r.models.paths@) == csv_items(split_by(answers.paths@, seq![','])),
        strings_view(r.models.included@) == csv_items(split_by(answers.included@, seq![','])),
        strings_view(r.models.excluded@) == csv_items(split_by(answers.excluded@, seq![','])),
        r.migrations.dir@ == answers.migrations_dir@,
        r.migrations.naming@ == "timestamp"@,
        r.database.adapter@ == "surreal"@,
        r.database.url matches Some(u) && u@ == answers.db_url@,
        r.database.namespace matches Some(n) && n@ == answers.db_namespace@,
        r.database.database matches Some(d) && d@ == answers.db_database@,
        r.schema.capture_fields,
        r.schema.capture_edge_relationships,
{
    let options = adapter_options();
    assert(strings_view(options@).len() == options@.len());
    assert(options@[0]@ == strings_view(options@)[0]);
    let adapter = owned(options[answers.adapter_index].as_str());
    let models = ModelsConfig {
        paths: split_csv(answers.paths.as_str()),
        included: split_csv(answers.included.as_str()),
        excluded: split_csv(answers.excluded.as_str()),
    };
    let database = DatabaseConfig {
        adapter,
        url: Some(answers.db_url),
        namespace: Some(answers.db_namespace),
        database: Some(answers.db_database),
    };
    let mut cfg = RootConfig::default();
    cfg.project.name = Some(answers.project_name);
    cfg.models = models;
    cfg.migrations.dir = answers.migrations_dir;
    cfg.database = database;
    cfg
}

// ---------------------------------------------------------------------------
// The manifest's dependencies
// ---------------------------------------------------------------------------

#[verifier::external_type_specification]
#[verifier::external_body]
pub struct ExTomlTable(TomlTable);

#[verifier::external_type_specification]
#[verifier::external_body]
pub struct ExTomlDocument(DocumentMut);

/// An item of a TOML table, as a value.
pub enum TomlItemView {
    /// A string value (`Item::as_str`): its contents.
    Str(Seq<char>),
    /// Any other item: the text toml_edit's `Display` writes for it.
    Other(Seq<char>),
}

/// An entry of a document's root table, as a value.
pub enum TomlEntryView {
    /// A table (`Item::Table`): its items.
    Table(Map<Seq<char>, TomlItemView>),
    /// An item that is not a table.
    Item(TomlItemView),
    /// An entry left empty (`Item::None`).
    Empty,
}

/// The items of a TOML table: each key that holds an item (not an empty one), with the item.
pub uninterp spec fn toml_items(t: TomlTable) -> Map<Seq<char>, TomlItemView>;

/// The entries of a document's root table, by key.
pub uninterp spec fn toml_doc_root(d: DocumentMut) -> Map<Seq<char>, TomlEntryView>;

/// What `DocumentMut::from_str` reads from a text: the entries of the document's root table,
/// or the error's text.
pub uninterp spec fn spec_toml_parse(text: Seq<char>) -> Result<Map<Seq<char>, TomlEntryView>, Seq<char>>;

/// The text `DocumentMut`'s `Display` writes for a document.
pub uninterp spec fn spec_toml_render(d: DocumentMut) -> Seq<char>;

/// `TomlTable::contains_key`: whether the key holds an item.
#[verifier::external_body]
fn toml_contains_key(t: &TomlTable, key: &str) -> (r: bool)
    ensures
        r == toml_items(*t).dom().contains(key@),
{
    t.contains_key(key)
}

/// `TomlTable::insert` of `toml_edit::value(text)`: the key then holds the string `text`, and
/// the other items are as they were.
#[verifier::external_body]
fn toml_insert_str(t: &mut TomlTable, key: &str, text: &str)
    ensures
        toml_items(*final(t)) == toml_items(*old(t)).insert(key@, TomlItemView::Str(text@)),
{
    t.insert(key, toml_edit::value(text));
}

/// The package the project is set up to depend on.
pub const DEPENDENCY_NAME: &'static str = "junction-rs";

/// The version of it that is asked for.
pub const DEPENDENCY_VERSION: &'static str = "0.1";

/// Adds `name = "<version>"` to a dependencies table unless `name` is there already;
/// returns whether the table changed. The other entries are left as they were.
pub fn add_dependency_if_missing(table: &mut TomlTable, name: &str, version: &str) -> (r: bool)
    ensures
        r == !toml_items(*old(table)).dom().contains(name@),
        toml_items(*final(table)) == if r {
            toml_items(*old(table)).insert(name@, TomlItemView::Str(version@))
        } else {
            toml_items(*old(table))
        },
{
    if toml_contains_key(table, name) {
        false
    } else {
        toml_insert_str(table, name, version);
        true
    }
}

/// `DocumentMut::from_str` (`text.parse()`), with the error as its text.
#[verifier::external_body]
fn toml_parse(text: &str) -> (r: Result<DocumentMut, String>)
    ensures
        match r {
            Ok(d) => spec_toml_parse(text@) == Ok::<Map<Seq<char>, TomlEntryView>, Seq<char>>(toml_doc_root(d)),
            Err(m) => spec_toml_parse(text@) == Err::<Map<Seq<char>, TomlEntryView>, Seq<char>>(m@),
        },
{
    match text.parse::<DocumentMut>() {
        Ok(d) => Ok(d),
        Err(e) => Err(e.to_string()),
    }
}

/// `doc.as_table_mut().entry(key).or_insert(Item::Table(Table::new())).as_table_mut()`, with
/// the table found moved out (an empty table left in its place). `None` when the key holds
/// something other than a table; the document is then unchanged.
#[verifier::external_body]
fn toml_take_table(doc: &mut DocumentMut, key: &str) -> (r: Option<TomlTable>)
    ensures
        r is None <==> (toml_doc_root(*old(doc)).dom().contains(key@)
            && !(toml_doc_root(*old(doc))[key@] is Table)),
        r is None ==> *final(doc) == *old(doc),
        r matches Some(t) ==> {
            &&& toml_items(t) == table_items(toml_doc_root(*old(doc)), key@)
            &&& toml_doc_root(*final(doc)) == toml_doc_root(*old(doc)).insert(
                key@,
                TomlEntryView::Table(Map::empty()),
            )
        },
{
    doc.as_table_mut()
        .entry(key)
        .or_insert(toml_edit::Item::Table(TomlTable::new()))
        .as_table_mut()
        .map(std::mem::take)
}

/// `*doc.as_table_mut().entry(key).or_insert(Item::None) = Item::Table(t)`: the key holds the
/// table `t`, in the entry it had.
#[verifier::external_body]
fn toml_put_table(doc: &mut DocumentMut, key: &str, t: TomlTable)
    ensures
        toml_doc_root(*final(doc)) == toml_doc_root(*old(doc)).insert(key@, TomlEntryView::Table(toml_items(t))),
{
    *doc.as_table_mut().entry(key).or_insert(toml_edit::Item::None) = toml_edit::Item::Table(t);
}

/// `DocumentMut::to_string`.
#[verifier::external_body]
fn toml_render(doc: &DocumentMut) -> (r: String)
    ensures
        r@ == spec_toml_render(*doc),
{
    doc.to_string()
}

/// Why a manifest could not be edited.
#[derive(Debug, Clone, PartialEq, Eq)]
pub enum ManifestError {
    /// The text is not a TOML document; the parser's message.
    Parse(String),
    /// `dependencies` holds something other than a table.
    NotATable,
}

impl ManifestError {
    /// The error's text.
    pub fn message(&self) -> (r: String)
        ensures
            self matches ManifestError::Parse(m) ==> r@ == m@,
            self is NotATable ==> r@ == "dependencies section is not a table"@,
    {
        match self {
            ManifestError::Parse(m) => owned(m.as_str()),
            ManifestError::NotATable => owned("dependencies section is not a table"),
        }
    }
}

/// The items of the table at `key` of a root table (none where it holds no table).
pub open spec fn table_items(root: Map<Seq<char>, TomlEntryView>, key: Seq<char>) -> Map<Seq<char>, TomlItemView> {
    if root.dom().contains(key) && root[key] is Table {
        root[key]->Table_0
    } else {
        Map::empty()
    }
}

/// Whether a root table's `dependencies` entry holds something other than a table.
pub open spec fn dependencies_not_table(root: Map<Seq<char>, TomlEntryView>) -> bool {
    root.dom().contains("dependencies"@) && !(root["dependencies"@] is Table)
}

/// Adds `name = "<version>"` to the `dependencies` table of a manifest's text (creating the
/// table where there is none). `Ok(None)` when `name` is there already: the manifest needs no
/// change. Otherwise the edited document's text: its `dependencies` table has the old entries
/// and `name` set to the string `version`, and the other entries of the document are as they
/// were.
pub fn add_dependency_to_manifest(manifest: &str, name: &str, version: &str) -> (r: Result<Option<String>, ManifestError>)
    ensures
        match spec_toml_parse(manifest@) {
            Err(m) => r matches Err(ManifestError::Parse(e)) && e@ == m,
            Ok(root) => match r {
                Err(e) => e is NotATable && dependencies_not_table(root),
                Ok(None) => !dependencies_not_table(root) && table_items(root, "dependencies"@).dom().contains(name@),
                Ok(Some(t)) => {
                    &&& !dependencies_not_table(root)
                    &&& !table_items(root, "dependencies"@).dom().contains(name@)
                    &&& exists|e: DocumentMut| {
                        &&& t@ == spec_toml_render(e)
                        &&& toml_doc_root(e) == root.insert(
                            "dependencies"@,
                            TomlEntryView::Table(
                                table_items(root, "dependencies"@).insert(name@, TomlItemView::Str(version@)),
                            ),
                        )
                    }
                },
            },
        },
{
    let mut doc = match toml_parse(manifest) {
        Ok(d) => d,
        Err(m) => {
            return Err(ManifestError::Parse(m));
        },
    };
    let ghost d0 = doc;
    let mut deps = match toml_take_table(&mut doc, "dependencies") {
        Some(t) => t,
        None => {
            return Err(ManifestError::NotATable);
        },
    };
    let changed = add_dependency_if_missing(&mut deps, name, version);
    if !changed {
        return Ok(None);
    }
    toml_put_table(&mut doc, "dependencies", deps);
    let text = toml_render(&doc);
    proof {
        assert(toml_doc_root(doc) =~= toml_doc_root(d0).insert(
            "dependencies"@,
            TomlEntryView::Table(table_items(toml_doc_root(d0), "dependencies"@).insert(name@, TomlItemView::Str(version@))),
        ));
    }
    Ok(Some(text))
}

// ---------------------------------------------------------------------------
// Answers read back
// ---------------------------------------------------------------------------

/// An answer item that reads back as itself: non-empty, without a comma, and without
/// surrounding whitespace.
pub open spec fn plain_item(v: Seq<char>) -> bool {
    &&& v.len() > 0
    &&& trim(v) == v
    &&& forall|j: int| 0 <= j < v.len() ==> v[j] != ','
}

/// Joining a list with `sep` puts its first item, `sep`, then the rest joined.
proof fn lemma_join_front(vs: Seq<Seq<char>>, sep: Seq<char>)
    requires
        vs.len() >= 2,
    ensures
        join(vs, sep) == vs[0] + sep + join(vs.drop_first(), sep),
    decreases vs.len(),
{
    if vs.len() == 2 {
        assert(vs.drop_last() =~= seq![vs[0]]);
        assert(vs.drop_first() =~= seq![vs[1]]);
        assert(join(vs.drop_last(), sep) == vs[0]);
        assert(join(vs.drop_first(), sep) == vs[1]);
        assert(join(vs, sep) == join(vs.drop_last(), sep) + sep + vs.last());
        assert(join(vs, sep) =~= vs[0] + sep + join(vs.drop_first(), sep));
    } else {
        lemma_join_front(vs.drop_last(), sep);
        let a = vs.drop_last().drop_first();
        assert(a =~= vs.drop_first().drop_last());
        assert(vs.drop_first().last() == vs.last());
        assert(vs.drop_last()[0] == vs[0]);
        assert(join(vs.drop_last(), sep) == vs[0] + sep + join(a, sep));
        assert(join(vs.drop_first(), sep) == join(a, sep) + sep + vs.last());
        assert(join(vs, sep) == join(vs.drop_last(), sep) + sep + vs.last());
        assert(join(vs, sep) =~= vs[0] + sep + join(vs.drop_first(), sep));
    }
}

/// Split at commas, `p` followed by the items joined with `, ` gives `p` with the first item,
/// then each further item after a space.
proof fn lemma_split_joined(p: Seq<char>, ws: Seq<Seq<char>>)
    requires
        ws.len() >= 1,
        forall|j: int| 0 <= j < p.len() ==> p[j] != ',',
        forall|i: int| 0 <= i < ws.len() ==> plain_item(#[trigger] ws[i]),
    ensures
        split_by(p + join(ws, ", "@), seq![',']) == seq![p + ws[0]] + ws.drop_first().map_values(
            |w: Seq<char>| seq![' '] + w,
        ),
    decreases ws.len(),
{
    reveal_strlit(", ");
    assert(", "@ =~= seq![',', ' ']);
    let w0 = ws[0];
    assert(plain_item(w0));
    if ws.len() == 1 {
        assert(join(ws, ", "@) == w0);
        assert forall|j: int| 0 <= j < (p + w0).len() implies (p + w0)[j] != ',' by {
            if j >= p.len() {
                assert((p + w0)[j] == w0[j - p.len()]);
            }
        }
        lemma_split_char_whole(p + w0, ',');
        assert(ws.drop_first().map_values(|w: Seq<char>| seq![' '] + w) =~= Seq::<Seq<char>>::empty());
    } else {
        lemma_join_front(ws, ", "@);
        let rest = ws.drop_first();
        assert forall|i: int| 0 <= i < rest.len() implies plain_item(#[trigger] rest[i]) by {
            assert(rest[i] == ws[i + 1]);
        }
        assert(p + join(ws, ", "@) =~= (p + w0) + seq![','] + (seq![' '] + join(rest, ", "@)));
        assert forall|j: int| 0 <= j < (p + w0).len() implies (p + w0)[j] != ',' by {
            if j >= p.len() {
                assert((p + w0)[j] == w0[j - p.len()]);
            }
        }
        lemma_split_char_front(p + w0, seq![' '] + join(rest, ", "@), ',');
        lemma_split_joined(seq![' '], rest);
        assert(seq![p + w0] + (seq![seq![' '] + rest[0]] + rest.drop_first().map_values(|w: Seq<char>| seq![' '] + w))
            =~= seq![p + ws[0]] + ws.drop_first().map_values(|w: Seq<char>| seq![' '] + w));
    }
}

/// Items that trim to something non-empty are all kept, trimmed.
proof fn lemma_csv_items_all(xs: Seq<Seq<char>>)
    requires
        forall|i: int| 0 <= i < xs.len() ==> trim(#[trigger] xs[i]).len() > 0,
    ensures
        csv_items(xs) == xs.map_values(|x: Seq<char>| trim(x)),
    decreases xs.len(),
{
    if xs.len() > 0 {
        lemma_csv_items_all(xs.drop_last());
        assert(xs.drop_last().map_values(|x: Seq<char>| trim(x)).push(trim(xs.last())) =~= xs.map_values(
            |x: Seq<char>| trim(x),
        ));
    }
}

/// A space before a plain item goes away when trimming.
proof fn lemma_trim_spaced(w: Seq<char>)
    requires
        plain_item(w),
    ensures
        trim(seq![' '] + w) == w,
{
    lemma_trim_start_space(w);
}

/// A list of plain items (non-empty, without commas, without surrounding whitespace) shown
/// joined with `, ` — as `init` shows its defaults — reads back as the same list when the
/// answer is split at commas and trimmed.
pub proof fn lemma_csv_roundtrip(values: Seq<Seq<char>>)
    requires
        forall|i: int| 0 <= i < values.len() ==> plain_item(#[trigger] values[i]),
    ensures
        csv_items(split_by(join(values, ", "@), seq![','])) == values,
{
    if values.len() == 0 {
        assert(join(values, ", "@) =~= Seq::<char>::empty());
        lemma_split_char_whole(Seq::<char>::empty(), ',');
        assert(trim(Seq::<char>::empty()) =~= Seq::<char>::empty());
        let one = seq![Seq::<char>::empty()];
        assert(one.drop_last() =~= Seq::<Seq<char>>::empty());
        assert(one.last() == Seq::<char>::empty());
        assert(trim(one.last()).len() == 0);
        assert(csv_items(Seq::<Seq<char>>::empty()) == Seq::<Seq<char>>::empty());
        assert(csv_items(one) =~= Seq::<Seq<char>>::empty());
        assert(values =~= Seq::<Seq<char>>::empty());
    } else {
        lemma_split_joined(Seq::<char>::empty(), values);
        assert(Seq::<char>::empty() + join(values, ", "@) =~= join(values, ", "@));
        assert(Seq::<char>::empty() + values[0] =~= values[0]);
        let pieces = seq![values[0]] + values.drop_first().map_values(|w: Seq<char>| seq![' '] + w);
        assert forall|i: int| 0 <= i < pieces.len() implies trim(#[trigger] pieces[i]) == values[i] by {
            if i == 0 {
                assert(plain_item(values[0]));
            } else {
                assert(pieces[i] == seq![' '] + values[i]);
                assert(plain_item(values[i]));
                lemma_trim_spaced(values[i]);
            }
        }
        lemma_csv_items_all(pieces);
        assert(pieces.map_values(|x: Seq<char>| trim(x)) =~= values);
    }
}

} // verus!
