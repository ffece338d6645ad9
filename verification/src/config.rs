//! Project configuration (`junction.toml`) and its defaults.
use vstd::prelude::*;
use crate::text::owned;

verus! {

/// The `[project]` section.
#[derive(Debug, Clone)]
pub struct ProjectConfig {
    pub name: Option<String>,
}

impl Default for ProjectConfig {
    fn default() -> (r: Self)
        ensures
            r.name is None,
    {
        ProjectConfig { name: None }
    }
}

/// The `[models]` section: where model structs are looked for (path patterns), and the
/// patterns their names must match (`included`) and must not match (`excluded`).
#[derive(Debug, Clone)]
pub struct ModelsConfig {
    pub paths: Vec<String>,
    pub included: Vec<String>,
    pub excluded: Vec<String>,
}

/// The views of a list of strings.
pub open spec fn strings_view(v: Seq<String>) -> Seq<Seq<char>> {
    v.map_values(|s: String| s@)
}

/// The default model paths: `crates/**/*.rs`.
pub fn default_paths() -> (r: Vec<String>)
    ensures
        strings_view(r@) == seq!["crates/**/*.rs"@],
{
    let r = vec![owned("crates/**/*.rs")];
    assert(strings_view(r@) =~= seq!["crates/**/*.rs"@]);
    r
}

/// The default name patterns: `.*` (every name).
pub fn default_include() -> (r: Vec<String>)
    ensures
        strings_view(r@) == seq![".*"@],
{
    let r = vec![owned(".*")];
    assert(strings_view(r@) =~= seq![".*"@]);
    r
}

impl Default for ModelsConfig {
    fn default() -> (r: Self)
        ensures
            strings_view(r.paths@) == seq!["crates/**/*.rs"@],
            strings_view(r.included@) == seq![".*"@],
            r.excluded@.len() == 0,
    {
        ModelsConfig { paths: default_paths(), included: default_include(), excluded: Vec::new() }
    }
}

/// The `[migrations]` section: the directory of migration files and their naming scheme.
#[derive(Debug, Clone)]
pub struct MigrationsConfig {
    pub dir: String,
    pub naming: String,
}

/// The default migrations directory: `migrations`.
pub fn default_migrations_dir() -> (r: String)
    ensures
        r@ == "migrations"@,
{
    owned("migrations")
}

/// The default naming scheme: `timestamp`.
pub fn default_naming() -> (r: String)
    ensures
        r@ == "timestamp"@,
{
    owned("timestamp")
}

impl Default for MigrationsConfig {
    fn default() -> (r: Self)
        ensures
            r.dir@ == "migrations"@,
            r.naming@ == "timestamp"@,
    {
        MigrationsConfig { dir: default_migrations_dir(), naming: default_naming() }
    }
}

/// The `[database]` section: the adapter and where it connects.
#[derive(Debug, Clone)]
pub struct DatabaseConfig {
    pub adapter: String,
    pub url: Option<String>,
    pub namespace: Option<String>,
    pub database: Option<String>,
}

impl Default for DatabaseConfig {
    fn default() -> (r: Self)
        ensures
            r.adapter@ == "surreal"@,
            r.url matches Some(u) && u@ == "memory"@,
            r.namespace matches Some(n) && n@ == "test"@,
            r.database matches Some(d) && d@ == "test"@,
    {
        DatabaseConfig {
            adapter: owned("surreal"),
            url: Some(owned("memory")),
            namespace: Some(owned("test")),
            database: Some(owned("test")),
        }
    }
}

/// The `[schema]` section: what the snapshot captures.
#[derive(Debug, Clone)]
pub struct SchemaSectionConfig {
    pub capture_fields: bool,
    pub capture_edge_relationships: bool,
}

/// The default of a flag that is on unless turned off.
pub fn default_true() -> (r: bool)
    ensures
        r,
{
    true
}

impl Default for SchemaSectionConfig {
    fn default() -> (r: Self)
        ensures
            r.capture_fields,
            r.capture_edge_relationships,
    {
        SchemaSectionConfig { capture_fields: default_true(), capture_edge_relationships: default_true() }
    }
}

/// The whole configuration.
#[derive(Debug, Clone)]
pub struct RootConfig {
    pub project: ProjectConfig,
    pub models: ModelsConfig,
    pub migrations: MigrationsConfig,
    pub database: DatabaseConfig,
    pub schema: SchemaSectionConfig,
}

/// The configuration a project has without a `junction.toml`.
pub open spec fn is_default_config(c: RootConfig) -> bool {
    &&& c.project.name is None
    &&& strings_view(c.models.paths@) == seq!["crates/**/*.rs"@]
    &&& strings_view(c.models.included@) == seq![".*"@]
    &&& c.models.excluded@.len() == 0
    &&& c.migrations.dir@ == "migrations"@
    &&& c.migrations.naming@ == "timestamp"@
    &&& c.database.adapter@ == "surreal"@
    &&& c.database.url matches Some(u) && u@ == "memory"@
    &&& c.database.namespace matches Some(n) && n@ == "test"@
    &&& c.database.database matches Some(d) && d@ == "test"@
    &&& c.schema.capture_fields
    &&& c.schema.capture_edge_relationships
}

impl Default for RootConfig {
    fn default() -> (r: Self)
        ensures
            is_default_config(r),
    {
        RootConfig {
            project: ProjectConfig::default(),
            models: ModelsConfig::default(),
            migrations: MigrationsConfig::default(),
            database: DatabaseConfig::default(),
            schema: SchemaSectionConfig::default(),
        }
    }
}

/// The name of the configuration file looked for by default.
pub const DEFAULT_CONFIG_FILE: &'static str = "junction.toml";

} // verus!
