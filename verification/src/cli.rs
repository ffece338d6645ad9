//! The command line: its commands, and what each one decides before doing any I/O.
use vstd::prelude::*;
use crate::config::{DatabaseConfig, strings_view};
use crate::snapshot::{Model, SchemaSnapshot};
use crate::text::{owned, push_str, str_eq};

verus! {

// ---------------------------------------------------------------------------
// Commands
// ---------------------------------------------------------------------------

/// The command line: an optional configuration file, and a command.
#[derive(Debug, Clone)]
pub struct Cli {
    pub config: Option<String>,
    pub command: Commands,
}

/// The commands.
#[derive(Debug, Clone)]
pub enum Commands {
    /// Initialize a configuration in the current project.
    Init,
    /// Migration commands.
    Migrate { cmd: MigrateCmd },
    /// Snapshot commands.
    Snapshot { cmd: SnapshotCmd },
    /// Schema inspection.
    Schema { cmd: SchemaCmd },
}

/// Migration commands.
#[derive(Debug, Clone)]
pub enum MigrateCmd {
    /// List applied and pending migrations.
    List,
    /// Apply pending migrations.
    Apply { to: Option<String>, dry_run: bool },
    /// Create a migration from the schema diff.
    New { name: String },
    /// Revert the last (or a given) migration.
    Revert { id: Option<String> },
    /// A summary of the registered adapters.
    Status,
}

/// Snapshot commands.
#[derive(Debug, Clone)]
pub enum SnapshotCmd {
    /// Write the scanned schema to a snapshot file.
    Generate { output: Option<String> },
    /// Compare the scanned schema with the snapshot file.
    Diff,
}

/// Schema commands.
#[derive(Debug, Clone)]
pub enum SchemaCmd {
    /// Print the scanned schema.
    Inspect,
}

/// What running a command line comes to: `init` (with the configuration file it was
/// given), or a command that first loads the configuration.
#[derive(Debug, Clone)]
pub enum Step {
    Init { config: Option<String> },
    Migrate { config: Option<String>, cmd: MigrateCmd },
    Snapshot { config: Option<String>, cmd: SnapshotCmd },
    Schema { config: Option<String>, cmd: SchemaCmd },
}

/// The step a command line comes to: `init` goes its own way with the configuration path;
/// every other command loads the configuration first.
pub fn run(cli: Cli) -> (r: Step)
    ensures
        cli.command is Init <==> r is Init,
        r matches Step::Init { config } ==> config == cli.config,
        r matches Step::Migrate { config, cmd } ==> config == cli.config && cli.command == (Commands::Migrate { cmd }),
        r matches Step::Snapshot { config, cmd } ==> config == cli.config && cli.command == (Commands::Snapshot { cmd }),
        r matches Step::Schema { config, cmd } ==> config == cli.config && cli.command == (Commands::Schema { cmd }),
{
    match cli.command {
        Commands::Init => Step::Init { config: cli.config },
        Commands::Migrate { cmd } => Step::Migrate { config: cli.config, cmd },
        Commands::Snapshot { cmd } => Step::Snapshot { config: cli.config, cmd },
        Commands::Schema { cmd } => Step::Schema { config: cli.config, cmd },
    }
}

// ---------------------------------------------------------------------------
// Migrate
// ---------------------------------------------------------------------------

/// `{:?}` of an optional string (`None`, or `Some("...")` with the string escaped).
pub uninterp spec fn debug_text(o: Option<Seq<char>>) -> Seq<char>;

/// `format!("{:?}", o)` of an optional string. The text is named by `debug_text`; `None`
/// shows as `None`.
#[verifier::external_body]
fn debug_option(o: &Option<String>) -> (r: String)
    ensures
        r@ == debug_text(crate::text::opt_view(*o)),
        o is None ==> r@ == "None"@,
{
    format!("{:?}", o)
}

/// What a migrate command does: print a line, create a migration, or report status.
#[derive(Debug, Clone)]
pub enum MigrateAction {
    Print(String),
    NewMigration { name: String },
    Status,
}

/// The line a not-yet-implemented migrate command prints.
pub open spec fn stub_line(cmd: MigrateCmd) -> Seq<char> {
    match cmd {
        MigrateCmd::List => "[stub] migrate list"@,
        MigrateCmd::Apply { to, dry_run } => "[stub] migrate apply to="@ + debug_text(crate::text::opt_view(to))
            + " dry_run="@ + crate::migration::bool_text(dry_run),
        MigrateCmd::Revert { id } => "[stub] migrate revert id="@ + debug_text(crate::text::opt_view(id)),
        _ => Seq::empty(),
    }
}

/// What a migrate command does: `new` creates a migration, `status` reports, and the
/// others print a stub line.
pub fn migrate_action(cmd: MigrateCmd) -> (r: MigrateAction)
    ensures
        cmd matches MigrateCmd::New { name } ==> (r matches MigrateAction::NewMigration { name: n } && n == name),
        cmd is Status ==> r is Status,
        (cmd is List || cmd is Apply || cmd is Revert) ==> (r matches MigrateAction::Print(line) && line@ == stub_line(cmd)),
{
    match cmd {
        MigrateCmd::List => MigrateAction::Print(owned("[stub] migrate list")),
        MigrateCmd::Apply { to, dry_run } => {
            let mut line = owned("[stub] migrate apply to=");
            push_str(&mut line, debug_option(&to).as_str());
            push_str(&mut line, " dry_run=");
            push_str(&mut line, if dry_run { "true" } else { "false" });
            MigrateAction::Print(line)
        },
        MigrateCmd::New { name } => MigrateAction::NewMigration { name },
        MigrateCmd::Revert { id } => {
            let mut line = owned("[stub] migrate revert id=");
            push_str(&mut line, debug_option(&id).as_str());
            MigrateAction::Print(line)
        },
        MigrateCmd::Status => MigrateAction::Status,
    }
}

/// The position of the first adapter named `name`.

/// The registered adapter named `name`: its position among the registered names, or the
/// error text `adapter '<name>' not registered`.
pub fn find_adapter(names: &Vec<String>, name: &str) -> (r: Result<usize, String>)
    ensures
        r matches Ok(k) ==> k < names@.len() && names@[k as int]@ == name@ && forall|j: int| 0 <= j < k ==> names@[j]@ != name@,
        r matches Err(msg) ==> (forall|j: int| 0 <= j < names@.len() ==> names@[j]@ != name@) && msg@ == "adapter '"@ + name@ + "' not registered"@,
{
    let mut i: usize = 0;
    while i < names.len()
        invariant
            0 <= i <= names@.len(),
            forall|j: int| 0 <= j < i ==> names@[j]@ != name@,
        decreases names@.len() - i,
    {
        if str_eq(names[i].as_str(), name) {
            return Ok(i);
        }
        i += 1;
    }
    let mut msg = owned("adapter '");
    push_str(&mut msg, name);
    push_str(&mut msg, "' not registered");
    Err(msg)
}

/// The lines `migrate status` prints: the registered adapters (or a hint that there are
/// none), then whether the configured adapter is among them.
pub open spec fn status_text(names: Seq<Seq<char>>, target: Seq<char>) -> Seq<Seq<char>> {
    let head = if names.len() == 0 {
        seq!["no adapters registered. add a crate that calls register_adapter!(...) to enable database operations."@]
    } else {
        seq!["registered adapters:"@] + names.map_values(|n: Seq<char>| " - "@ + n)
    };
    let found = exists|k: int| 0 <= k < names.len() && names[k] == target;
    head.push(
        if found {
            "configured adapter '"@ + target + "' found"@
        } else {
            "configured adapter '"@ + target + "' is missing from registry"@
        },
    )
}

/// The lines `migrate status` prints.
pub fn status_lines(names: &Vec<String>, target: &str) -> (r: Vec<String>)
    ensures
        strings_view(r@) == status_text(strings_view(names@), target@),
{
    let ghost nv = strings_view(names@);
    let mut lines: Vec<String> = Vec::new();
    if names.len() == 0 {
        lines.push(owned("no adapters registered. add a crate that calls register_adapter!(...) to enable database operations."));
    } else {
        lines.push(owned("registered adapters:"));
        let mut i: usize = 0;
        while i < names.len()
            invariant
                0 <= i <= names@.len(),
                nv == strings_view(names@),
                strings_view(lines@) == seq!["registered adapters:"@] + nv.take(i as int).map_values(|n: Seq<char>| " - "@ + n),
            decreases names@.len() - i,
        {
            let mut line = owned(" - ");
            push_str(&mut line, names[i].as_str());
            let ghost before = strings_view(lines@);
            lines.push(line);
            assert(nv.take(i + 1) =~= nv.take(i as int).push(nv[i as int]));
            assert(strings_view(lines@) =~= before.push(" - "@ + nv[i as int]));
            assert(strings_view(lines@) =~= seq!["registered adapters:"@] + nv.take(i + 1).map_values(|n: Seq<char>| " - "@ + n));
            i += 1;
        }
        assert(nv.take(names@.len() as int) =~= nv);
    }
    let ghost head = strings_view(lines@);
    let found = find_adapter(names, target);
    let last = match found {
        Ok(k) => {
            assert(nv[k as int] == target@);
            let mut l = owned("configured adapter '");
            push_str(&mut l, target);
            push_str(&mut l, "' found");
            l
        },
        Err(_) => {
            let mut l = owned("configured adapter '");
            push_str(&mut l, target);
            push_str(&mut l, "' is missing from registry");
            l
        },
    };
    lines.push(last);
    assert(strings_view(lines@) =~= head.push(last@));
    lines
}

// ---------------------------------------------------------------------------
// Snapshot
// ---------------------------------------------------------------------------

/// The snapshot file the commands read and write by default.
pub const SNAPSHOT_FILE: &'static str = "schema.snapshot.json";

/// Where `snapshot generate` writes: the given path, else the default snapshot file.
pub fn snapshot_output(output: Option<String>) -> (r: String)
    ensures
        output matches Some(p) ==> r == p,
        output is None ==> r@ == SNAPSHOT_FILE@,
{
    match output {
        Some(p) => p,
        None => owned(SNAPSHOT_FILE),
    }
}

/// The tables of a list of models.
pub open spec fn model_tables(ms: Seq<Model>) -> Set<Seq<char>> {
    Set::new(|t: Seq<char>| exists|k: int| 0 <= k < ms.len() && ms[k].table@ == t)
}

/// No string occurs twice.
pub open spec fn distinct(s: Seq<Seq<char>>) -> bool {
    forall|i: int, j: int| 0 <= i < j < s.len() ==> s[i] != s[j]
}

/// Whether some model has table `t`.
fn has_table(ms: &Vec<Model>, t: &str) -> (r: bool)
    ensures
        r == model_tables(ms@).contains(t@),
{
    let mut i: usize = 0;
    while i < ms.len()
        invariant
            0 <= i <= ms@.len(),
            forall|k: int| 0 <= k < i ==> ms@[k].table@ != t@,
        decreases ms@.len() - i,
    {
        if str_eq(ms[i].table.as_str(), t) {
            return true;
        }
        i += 1;
    }
    false
}

/// Whether `t` is in the list.
fn listed(v: &Vec<String>, t: &str) -> (r: bool)
    ensures
        r == strings_view(v@).contains(t@),
{
    let mut i: usize = 0;
    while i < v.len()
        invariant
            0 <= i <= v@.len(),
            forall|k: int| 0 <= k < i ==> v@[k]@ != t@,
        decreases v@.len() - i,
    {
        if str_eq(v[i].as_str(), t) {
            assert(strings_view(v@)[i as int] == t@);
            return true;
        }
        i += 1;
    }
    proof {
        if strings_view(v@).contains(t@) {
            let k = choose|k: int| 0 <= k < strings_view(v@).len() && strings_view(v@)[k] == t@;
            assert(v@[k]@ == t@);
        }
    }
    false
}

/// The tables of `from` that `other` lacks, each once, in order of first appearance.
fn tables_missing(from: &Vec<Model>, other: &Vec<Model>) -> (r: Vec<String>)
    ensures
        strings_view(r@).to_set() == model_tables(from@).difference(model_tables(other@)),
        distinct(strings_view(r@)),
{
    let mut out: Vec<String> = Vec::new();
    let mut i: usize = 0;
    while i < from.len()
        invariant
            0 <= i <= from@.len(),
            distinct(strings_view(out@)),
            forall|t: Seq<char>| strings_view(out@).contains(t) <==> (
                (exists|k: int| 0 <= k < i && from@[k].table@ == t) && !model_tables(other@).contains(t)),
        decreases from@.len() - i,
    {
        let t = from[i].table.as_str();
        let ghost before = strings_view(out@);
        let other_has = has_table(other, t);
        let already = listed(&out, t);
        if !other_has && !already {
            out.push(owned(t));
            assert(strings_view(out@) =~= before.push(t@));
        } else {
            assert(strings_view(out@) =~= before);
        }
        proof {
            assert forall|u: Seq<char>| strings_view(out@).contains(u) <==> (
                (exists|k: int| 0 <= k < i + 1 && from@[k].table@ == u) && !model_tables(other@).contains(u)) by {
                if strings_view(out@).contains(u) {
                    let w = choose|w: int| 0 <= w < strings_view(out@).len() && strings_view(out@)[w] == u;
                    if w < before.len() {
                        assert(before[w] == u);
                        assert(before.contains(u));
                    } else {
                        assert(u == t@);
                        assert(from@[i as int].table@ == u);
                    }
                }
                if (exists|k: int| 0 <= k < i + 1 && from@[k].table@ == u) && !model_tables(other@).contains(u) {
                    let k = choose|k: int| 0 <= k < i + 1 && from@[k].table@ == u;
                    if k < i {
                        assert(before.contains(u));
                        let w = choose|w: int| 0 <= w < before.len() && before[w] == u;
                        assert(strings_view(out@)[w] == u);
                    } else {
                        assert(u == t@);
                        if already {
                            let w = choose|w: int| 0 <= w < before.len() && before[w] == u;
                            assert(strings_view(out@)[w] == u);
                        } else {
                            assert(strings_view(out@)[before.len() as int] == u);
                        }
                    }
                }
            }
        }
        i += 1;
    }
    assert(strings_view(out@).to_set() =~= model_tables(from@).difference(model_tables(other@)));
    out
}

/// The tables the latest scan has and the snapshot lacks (added), and the other way round
/// (removed), each once.
pub fn table_changes(current: &SchemaSnapshot, latest: &SchemaSnapshot) -> (r: (Vec<String>, Vec<String>))
    ensures
        strings_view(r.0@).to_set() == model_tables(latest.models@).difference(model_tables(current.models@)),
        strings_view(r.1@).to_set() == model_tables(current.models@).difference(model_tables(latest.models@)),
        distinct(strings_view(r.0@)),
        distinct(strings_view(r.1@)),
{
    (tables_missing(&latest.models, &current.models), tables_missing(&current.models, &latest.models))
}

/// The lines `snapshot diff` prints: `+ table <t>` for each added table, `- table <t>`
/// for each removed one, then `(basic diff complete)`.
pub fn snapshot_diff_lines(current: &SchemaSnapshot, latest: &SchemaSnapshot) -> (r: Vec<String>)
    ensures
        exists|added: Seq<Seq<char>>, removed: Seq<Seq<char>>| {
            &&& added.to_set() == model_tables(latest.models@).difference(model_tables(current.models@))
            &&& removed.to_set() == model_tables(current.models@).difference(model_tables(latest.models@))
            &&& distinct(added) && distinct(removed)
            &&& strings_view(r@) == added.map_values(|t: Seq<char>| "+ table "@ + t) + removed.map_values(
                |t: Seq<char>| "- table "@ + t,
            ) + seq!["(basic diff complete)"@]
        },
{
    let (added, removed) = table_changes(current, latest);
    let ghost av = strings_view(added@);
    let ghost rv = strings_view(removed@);
    let mut lines: Vec<String> = Vec::new();
    let mut i: usize = 0;
    while i < added.len()
        invariant
            0 <= i <= added@.len(),
            av == strings_view(added@),
            strings_view(lines@) == av.take(i as int).map_values(|t: Seq<char>| "+ table "@ + t),
        decreases added@.len() - i,
    {
        let mut l = owned("+ table ");
        push_str(&mut l, added[i].as_str());
        let ghost before = strings_view(lines@);
        lines.push(l);
        assert(av[i as int] == added@[i as int]@);
        assert(strings_view(lines@) =~= before.push("+ table "@ + av[i as int]));
        assert(av.take(i + 1) =~= av.take(i as int).push(av[i as int]));
        assert(strings_view(lines@) =~= av.take(i + 1).map_values(|t: Seq<char>| "+ table "@ + t));
        i += 1;
    }
    assert(av.take(added@.len() as int) =~= av);
    let ghost first = strings_view(lines@);
    let mut j: usize = 0;
    while j < removed.len()
        invariant
            0 <= j <= removed@.len(),
            rv == strings_view(removed@),
            strings_view(lines@) == first + rv.take(j as int).map_values(|t: Seq<char>| "- table "@ + t),
        decreases removed@.len() - j,
    {
        let mut l = owned("- table ");
        push_str(&mut l, removed[j].as_str());
        let ghost before = strings_view(lines@);
        lines.push(l);
        assert(rv[j as int] == removed@[j as int]@);
        assert(strings_view(lines@) =~= before.push("- table "@ + rv[j as int]));
        assert(rv.take(j + 1) =~= rv.take(j as int).push(rv[j as int]));
        assert(strings_view(lines@) =~= first + rv.take(j + 1).map_values(|t: Seq<char>| "- table "@ + t));
        j += 1;
    }
    assert(rv.take(removed@.len() as int) =~= rv);
    lines.push(owned("(basic diff complete)"));
    assert(strings_view(lines@) =~= av.map_values(|t: Seq<char>| "+ table "@ + t) + rv.map_values(
        |t: Seq<char>| "- table "@ + t,
    ) + seq!["(basic diff complete)"@]);
    lines
}

// ---------------------------------------------------------------------------
// The database
// ---------------------------------------------------------------------------

/// The URL the database adapter connects to: the configured one, else `memory`.
pub fn connection_url(cfg: &DatabaseConfig) -> (r: String)
    ensures
        cfg.url matches Some(u) ==> r@ == u@,
        cfg.url is None ==> r@ == "memory"@,
{
    match &cfg.url {
        Some(u) => owned(u.as_str()),
        None => owned("memory"),
    }
}

/// The namespace and database to select: both where both are configured, else none.
pub fn namespace_selection(cfg: &DatabaseConfig) -> (r: Option<(String, String)>)
    ensures
        r matches Some((ns, db)) ==> cfg.namespace matches Some(n) && cfg.database matches Some(d) && ns@ == n@ && db@ == d@,
        r is None ==> cfg.namespace is None || cfg.database is None,
{
    match (&cfg.namespace, &cfg.database) {
        (Some(n), Some(d)) => Some((owned(n.as_str()), owned(d.as_str()))),
        _ => None,
    }
}

/// The table that records applied migrations.
pub const STATE_TABLE: &'static str = "__junction_migrations";

/// An applied migration: its id, when it was applied (ISO 8601), and its checksum.
#[derive(Debug, Clone)]
pub struct MigrationRecord {
    pub id: String,
    pub applied_at: String,
    pub checksum: String,
}

/// The statement that reads the applied migrations.
pub fn fetch_applied_sql() -> (r: String)
    ensures
        r@ == "SELECT * FROM "@ + STATE_TABLE@,
{
    let mut r = owned("SELECT * FROM ");
    push_str(&mut r, STATE_TABLE);
    r
}

/// The statement that records an applied migration (its time and checksum are bound as
/// `$applied_at` and `$checksum`).
pub fn record_applied_sql(rec: &MigrationRecord) -> (r: String)
    ensures
        r@ == "CREATE "@ + STATE_TABLE@ + ":"@ + rec.id@ + " SET applied_at = $applied_at, checksum = $checksum"@,
{
    let mut r = owned("CREATE ");
    push_str(&mut r, STATE_TABLE);
    push_str(&mut r, ":");
    push_str(&mut r, rec.id.as_str());
    push_str(&mut r, " SET applied_at = $applied_at, checksum = $checksum");
    r
}

/// The statement that deletes the record of a migration.
pub fn delete_record_sql(id: &str) -> (r: String)
    ensures
        r@ == "DELETE "@ + STATE_TABLE@ + ":"@ + id@,
{
    let mut r = owned("DELETE ");
    push_str(&mut r, STATE_TABLE);
    push_str(&mut r, ":");
    push_str(&mut r, id);
    r
}

} // verus!
