//! The layered variable environment handed to commands: defaults, then the action, then
//! the package set, then the package.
use vstd::prelude::*;

use crate::installer::{InstallActionKind, action_text, opt_text};
use crate::name::{Name, Platform, platform_text};
use crate::packages::{
    ActionsView, Package, PackageRepository, PackageSet, PackageSetView, PackageView, group_views,
};
use crate::paths::{file_name_of, joined, parent_of};
use crate::strmap::StringMap;
use crate::template::{substitute, var_string_replace};

verus! {

/// Facts about the machine and the user that the default variables are made of.
#[derive(Debug)]
pub struct HostInfo {
    pub home: String,
    pub log_level: String,
    pub shell: String,
    pub download_dir: Option<String>,
    pub platform: Platform,
    pub family: String,
    pub os: String,
    pub arch: String,
    pub repo_config_path: String,
    pub repo_local_path: String,
}

/// The default variables built from `host`.
pub open spec fn default_vars_of(host: HostInfo) -> Map<Seq<char>, Seq<char>> {
    let m = Map::<Seq<char>, Seq<char>>::empty().insert("home"@, host.home@).insert(
        "command_log_level"@,
        host.log_level@,
    ).insert("command_shell"@, host.shell@);
    let m = match host.download_dir {
        Some(d) => m.insert("local_download_path"@, d@),
        None => m,
    };
    m.insert("platform"@, platform_text(host.platform)).insert(
        "platform_family"@,
        host.family@,
    ).insert("platform_os"@, host.os@).insert("platform_arch"@, host.arch@).insert(
        "repo_config_path"@,
        host.repo_config_path@,
    ).insert("repo_local_path"@, host.repo_local_path@)
}

/// The variables every command starts from: `home`, `command_log_level`, `command_shell`,
/// `local_download_path` (when known), `platform`, `platform_family`, `platform_os`,
/// `platform_arch`, `repo_config_path` and `repo_local_path`.
pub fn default_vars(host: &HostInfo) -> (r: StringMap)
    ensures
        r@ == default_vars_of(*host),
{
    let mut r = StringMap::new();
    r.insert(String::from_str("home"), host.home.clone());
    r.insert(String::from_str("command_log_level"), host.log_level.clone());
    r.insert(String::from_str("command_shell"), host.shell.clone());
    match &host.download_dir {
        Some(d) => r.insert(String::from_str("local_download_path"), d.clone()),
        None => {},
    }
    r.insert(String::from_str("platform"), host.platform.to_string());
    r.insert(String::from_str("platform_family"), host.family.clone());
    r.insert(String::from_str("platform_os"), host.os.clone());
    r.insert(String::from_str("platform_arch"), host.arch.clone());
    r.insert(String::from_str("repo_config_path"), host.repo_config_path.clone());
    r.insert(String::from_str("repo_local_path"), host.repo_local_path.clone());
    r
}

/// The defaults extended with the action's name.
pub open spec fn action_vars_of(action: InstallActionKind, defaults: Map<Seq<char>, Seq<char>>) -> Map<
    Seq<char>,
    Seq<char>,
> {
    defaults.insert("command_action"@, action_text(action))
}

/// Adds `command_action`, the action's name, to a copy of `default_vars`.
pub fn add_action_vars(action: &InstallActionKind, default_vars: &StringMap) -> (r: StringMap)
    ensures
        r@ == action_vars_of(*action, default_vars@),
{
    let mut r = default_vars.clone();
    r.insert(String::from_str("command_action"), action.to_string());
    r
}

/// Inserts `value` under `key` when there is a value.
pub open spec fn insert_opt(m: Map<Seq<char>, Seq<char>>, key: Seq<char>, value: Option<Seq<char>>) -> Map<
    Seq<char>,
    Seq<char>,
> {
    match value {
        Some(v) => m.insert(key, v),
        None => m,
    }
}

/// The set's own variables on top of `vars`: its name, its file name and its directory.
pub open spec fn set_vars_of(set: PackageSetView, vars: Map<Seq<char>, Seq<char>>) -> Map<
    Seq<char>,
    Seq<char>,
> {
    insert_opt(
        insert_opt(vars.insert("package_set_name"@, set.name), "package_set_file"@, file_name_of(set.path)),
        "package_set_path"@,
        parent_of(set.path),
    )
}

/// Adds `package_set_name`, `package_set_file` (the file the set was read from) and
/// `package_set_path` (its directory) to a copy of `action_vars`; a file name or directory
/// that the set's path lacks is left out.
pub fn add_package_set_action_vars(package_set: &PackageSet, action_vars: &StringMap) -> (r: StringMap)
    ensures
        r@ == set_vars_of(package_set@, action_vars@),
{
    let mut r = action_vars.clone();
    r.insert(String::from_str("package_set_name"), package_set.name().to_string());
    match crate::paths::path_file_name(package_set.path().as_str()) {
        Some(f) => r.insert(String::from_str("package_set_file"), f),
        None => {},
    }
    match crate::paths::path_parent(package_set.path().as_str()) {
        Some(p) => r.insert(String::from_str("package_set_path"), p),
        None => {},
    }
    r
}

/// A package's configuration, local data and log directories, where known.
#[derive(Debug)]
pub struct PackageDirs {
    pub config: Option<String>,
    pub data_local: Option<String>,
    pub log: Option<String>,
}

/// The package's variables on top of `vars`: its name, and each of its directories that is
/// known.
pub open spec fn package_vars_of(
    package: PackageView,
    vars: Map<Seq<char>, Seq<char>>,
    dirs: PackageDirs,
) -> Map<Seq<char>, Seq<char>> {
    insert_opt(
        insert_opt(
            insert_opt(
                vars.insert("package_name"@, package.name),
                "package_config_path"@,
                opt_text(dirs.config),
            ),
            "package_data_local_path"@,
            opt_text(dirs.data_local),
        ),
        "package_log_path"@,
        opt_text(dirs.log),
    )
}

fn insert_known(m: &mut StringMap, key: &str, value: &Option<String>)
    ensures
        final(m)@ == insert_opt(old(m)@, key@, opt_text(*value)),
{
    match value {
        Some(v) => m.insert(String::from_str(key), v.clone()),
        None => {},
    }
}

/// Adds `package_name` and the package's known configuration, local data and log
/// directories to a copy of `package_set_vars`.
pub fn add_package_action_vars(package: &Package, package_set_vars: &StringMap, dirs: &PackageDirs) -> (r:
    StringMap)
    ensures
        r@ == package_vars_of(package@, package_set_vars@, *dirs),
{
    let mut r = package_set_vars.clone();
    r.insert(String::from_str("package_name"), package.name().to_string());
    insert_known(&mut r, "package_config_path", &dirs.config);
    insert_known(&mut r, "package_data_local_path", &dirs.data_local);
    insert_known(&mut r, "package_log_path", &dirs.log);
    r
}

/// `d` is a directory named `name` inside some directory.
pub open spec fn dir_named(d: Seq<char>, name: Seq<char>) -> bool {
    exists|b: Seq<char>| d == joined(b, name)
}

/// `d` is a log directory for `name`: a directory named `name`, or the `logs` directory
/// inside one.
pub open spec fn log_dir_named(d: Seq<char>, name: Seq<char>) -> bool {
    exists|b: Seq<char>| d == joined(b, name) || d == joined(joined(b, name), "logs"@)
}

pub open spec fn opt_dir_named(o: Option<String>, name: Seq<char>) -> bool {
    match o {
        Some(d) => dir_named(d@, name),
        None => true,
    }
}

pub open spec fn opt_log_dir_named(o: Option<String>, name: Seq<char>) -> bool {
    match o {
        Some(d) => log_dir_named(d@, name),
        None => true,
    }
}

/// The directories are those of the package `name`.
pub open spec fn dirs_named(d: PackageDirs, name: Seq<char>) -> bool {
    opt_dir_named(d.config, name) && opt_dir_named(d.data_local, name) && opt_log_dir_named(
        d.log,
        name,
    )
}

/// Relies on `xdirs::config_dir_for`: the user's configuration directory (when known) joined
/// with `name`.
#[verifier::external_body]
fn config_dir_for(name: &str) -> (r: Option<String>)
    ensures
        opt_dir_named(r, name@),
{
    match xdirs::config_dir_for(name) {
        Some(p) => Some(p.to_string_lossy().into_owned()),
        None => None,
    }
}

/// Relies on `xdirs::data_local_dir_for`: the user's local data directory (when known)
/// joined with `name`.
#[verifier::external_body]
fn data_local_dir_for(name: &str) -> (r: Option<String>)
    ensures
        opt_dir_named(r, name@),
{
    match xdirs::data_local_dir_for(name) {
        Some(p) => Some(p.to_string_lossy().into_owned()),
        None => None,
    }
}

/// Relies on `xdirs::log_dir_for`: on macOS the user's log directory joined with `name`, on
/// other Unix systems the `logs` directory inside the local data directory for `name`;
/// none when the base directory is unknown.
#[verifier::external_body]
fn log_dir_for(name: &str) -> (r: Option<String>)
    ensures
        opt_log_dir_named(r, name@),
{
    match xdirs::log_dir_for(name) {
        Some(p) => Some(p.to_string_lossy().into_owned()),
        None => None,
    }
}

impl PackageDirs {
    /// No directory known.
    pub fn unknown() -> (r: PackageDirs)
        ensures
            r == (PackageDirs { config: None, data_local: None, log: None }),
    {
        PackageDirs { config: None, data_local: None, log: None }
    }

    /// The current user's directories for the package `name`, as the platform places them:
    /// each one, where known, is a directory named after the package (for the log, possibly
    /// the `logs` directory inside it).
    pub fn for_package(name: &Name) -> (r: PackageDirs)
        ensures
            dirs_named(r, name@),
    {
        let n = name.as_str();
        PackageDirs { config: config_dir_for(n), data_local: data_local_dir_for(n), log: log_dir_for(n) }
    }
}

/// The directories of the first entry for `name`.
pub open spec fn dirs_in(t: Seq<(String, PackageDirs)>, name: Seq<char>) -> Option<PackageDirs>
    decreases t.len(),
{
    if t.len() == 0 {
        None
    } else if t[0].0@ == name {
        Some(t[0].1)
    } else {
        dirs_in(t.drop_first(), name)
    }
}

/// The directories found, or none known.
pub open spec fn found_dirs(o: Option<PackageDirs>) -> PackageDirs {
    match o {
        Some(d) => d,
        None => PackageDirs { config: None, data_local: None, log: None },
    }
}

/// The directories of packages, by package name.
#[derive(Debug)]
pub struct DirTable {
    entries: Vec<(String, PackageDirs)>,
}

impl DirTable {
    pub closed spec fn entries(&self) -> Seq<(String, PackageDirs)> {
        self.entries@
    }

    /// An empty table.
    pub fn new() -> (r: DirTable)
        ensures
            r.entries() == Seq::<(String, PackageDirs)>::empty(),
    {
        DirTable { entries: Vec::new() }
    }

    /// Adds the directories of the package `name`; an earlier entry for it takes precedence.
    pub fn insert(&mut self, name: &Name, dirs: PackageDirs)
        ensures
            final(self).entries().len() == old(self).entries().len() + 1,
            final(self).entries().drop_last() == old(self).entries(),
            final(self).entries().last().0@ == name@,
            final(self).entries().last().1 == dirs,
    {
        self.entries.push((name.to_string(), dirs));
        assert(self.entries@.drop_last() =~= old(self).entries@);
    }

    /// The directories of the package `name`, if the table has them.
    pub fn get(&self, name: &str) -> (r: Option<&PackageDirs>)
        ensures
            match r {
                Some(d) => dirs_in(self.entries(), name@) == Some(*d),
                None => dirs_in(self.entries(), name@) is None,
            },
    {
        let mut i: usize = 0;
        proof {
            assert(self.entries@.subrange(0, self.entries@.len() as int) =~= self.entries@);
        }
        while i < self.entries.len()
            invariant
                i <= self.entries@.len(),
                dirs_in(self.entries@, name@) == dirs_in(
                    self.entries@.subrange(i as int, self.entries@.len() as int),
                    name@,
                ),
            decreases self.entries@.len() - i,
        {
            let ghost t = self.entries@.subrange(i as int, self.entries@.len() as int);
            assert(t.drop_first() =~= self.entries@.subrange(i + 1, self.entries@.len() as int));
            assert(t[0] == self.entries@[i as int]);
            if crate::strmap::text_eq(self.entries[i].0.as_str(), name) {
                return Some(&self.entries[i].1);
            }
            i += 1;
        }
        None
    }

    /// The current user's directories for every package of the repository: every
    /// package has an entry, and every entry's directories are named after its package.
    pub fn from_host(repository: &PackageRepository) -> (r: DirTable)
        ensures
            forall|i: int, j: int, k: int|
                0 <= i < repository@.groups.len() && 0 <= j < repository@.groups[i].sets.len()
                    && 0 <= k < set_package_names(repository@.groups[i].sets[j]).len()
                    ==> #[trigger] dirs_in(
                    r.entries(),
                    set_package_names(repository@.groups[i].sets[j])[k],
                ) is Some,
            entries_named(r.entries()),
    {
        let mut table = DirTable::new();
        let groups = repository.groups();
        let ghost gv = repository@.groups;
        let mut g: usize = 0;
        while g < groups.len()
            invariant
                g <= groups@.len(),
                gv == group_views(groups@),
                entries_named(table.entries()),
                forall|i: int, j: int, k: int|
                    0 <= i < g && 0 <= j < gv[i].sets.len() && 0 <= k < set_package_names(
                        gv[i].sets[j],
                    ).len() ==> has_entry(table.entries(), #[trigger] set_package_names(gv[i].sets[j])[k]),
            decreases groups@.len() - g,
        {
            let ghost before = table.entries();
            add_group_dirs(&mut table, &groups[g]);
            proof {
                assert forall|i: int, j: int, k: int|
                    0 <= i < g + 1 && 0 <= j < gv[i].sets.len() && 0 <= k < set_package_names(
                        gv[i].sets[j],
                    ).len() implies has_entry(table.entries(), #[trigger] set_package_names(gv[i].sets[j])[k]) by {
                    if i < g {
                        lemma_has_entry_kept(before, table.entries(), set_package_names(gv[i].sets[j])[k]);
                    } else {
                        assert(gv[i] == groups@[i]@);
                    }
                }
            }
            g += 1;
        }
        proof {
            assert forall|i: int, j: int, k: int|
                0 <= i < repository@.groups.len() && 0 <= j < repository@.groups[i].sets.len()
                    && 0 <= k < set_package_names(repository@.groups[i].sets[j]).len() implies #[trigger] dirs_in(
                    table.entries(),
                    set_package_names(repository@.groups[i].sets[j])[k],
                ) is Some by {
                lemma_has_entry_found(table.entries(), set_package_names(gv[i].sets[j])[k]);
            }
        }
        table
    }
}

/// The names of a set's packages; a set of scripts has none.
pub open spec fn set_package_names(set: PackageSetView) -> Seq<Seq<char>> {
    match set.actions {
        ActionsView::Packages(p) => p.map_values(|v: PackageView| v.name),
        ActionsView::Scripts(_) => Seq::empty(),
    }
}

/// Some entry of `t` is for `name`.
pub open spec fn has_entry(t: Seq<(String, PackageDirs)>, name: Seq<char>) -> bool {
    exists|i: int| 0 <= i < t.len() && (#[trigger] t[i]).0@ == name
}

/// Every entry's directories are named after its package.
pub open spec fn entries_named(t: Seq<(String, PackageDirs)>) -> bool {
    forall|i: int| 0 <= i < t.len() ==> dirs_named((#[trigger] t[i]).1, t[i].0@)
}

/// `t2` holds the entries of `t1` first.
pub open spec fn extends(t2: Seq<(String, PackageDirs)>, t1: Seq<(String, PackageDirs)>) -> bool {
    t1.len() <= t2.len() && forall|i: int| 0 <= i < t1.len() ==> #[trigger] t2[i] == t1[i]
}

proof fn lemma_has_entry_kept(t1: Seq<(String, PackageDirs)>, t2: Seq<(String, PackageDirs)>, name: Seq<char>)
    requires
        extends(t2, t1),
        has_entry(t1, name),
    ensures
        has_entry(t2, name),
{
    let i = choose|i: int| 0 <= i < t1.len() && (#[trigger] t1[i]).0@ == name;
    assert(t2[i] == t1[i]);
}

proof fn lemma_has_entry_found(t: Seq<(String, PackageDirs)>, name: Seq<char>)
    requires
        has_entry(t, name),
    ensures
        dirs_in(t, name) is Some,
    decreases t.len(),
{
    if t[0].0@ != name {
        let i = choose|i: int| 0 <= i < t.len() && (#[trigger] t[i]).0@ == name;
        assert(t.drop_first()[i - 1] == t[i]);
        lemma_has_entry_found(t.drop_first(), name);
    }
}

fn add_package_dirs(table: &mut DirTable, packages: &Vec<Package>)
    requires
        entries_named(old(table).entries()),
    ensures
        extends(final(table).entries(), old(table).entries()),
        entries_named(final(table).entries()),
        forall|k: int| 0 <= k < packages@.len() ==> has_entry(final(table).entries(), #[trigger] packages@[k]@.name),
{
    let ghost start = table.entries();
    let mut p: usize = 0;
    while p < packages.len()
        invariant
            p <= packages@.len(),
            extends(table.entries(), start),
            entries_named(table.entries()),
            forall|k: int| 0 <= k < p ==> has_entry(table.entries(), #[trigger] packages@[k]@.name),
        decreases packages@.len() - p,
    {
        let ghost before = table.entries();
        let name = packages[p].name();
        table.insert(name, PackageDirs::for_package(name));
        proof {
            let t = table.entries();
            assert forall|i: int| 0 <= i < before.len() implies #[trigger] t[i] == before[i] by {
                assert(t.drop_last()[i] == t[i]);
            }
            assert forall|k: int| 0 <= k < p + 1 implies has_entry(t, #[trigger] packages@[k]@.name) by {
                if k < p {
                    lemma_has_entry_kept(before, t, packages@[k]@.name);
                } else {
                    assert(t[t.len() - 1].0@ == packages@[k]@.name);
                }
            }
            assert forall|i: int| 0 <= i < t.len() implies dirs_named((#[trigger] t[i]).1, t[i].0@) by {
                if i < before.len() {
                    assert(t[i] == before[i]);
                }
            }
        }
        p += 1;
    }
}

fn add_group_dirs(table: &mut DirTable, group: &crate::packages::PackageSetGroup)
    requires
        entries_named(old(table).entries()),
    ensures
        extends(final(table).entries(), old(table).entries()),
        entries_named(final(table).entries()),
        forall|j: int, k: int|
            0 <= j < group@.sets.len() && 0 <= k < set_package_names(group@.sets[j]).len()
                ==> has_entry(final(table).entries(), #[trigger] set_package_names(group@.sets[j])[k]),
{
    let ghost start = table.entries();
    let sets = group.package_sets();
    let mut s: usize = 0;
    while s < sets.len()
        invariant
            s <= sets@.len(),
            group@.sets == crate::packages::set_views(sets@),
            extends(table.entries(), start),
            entries_named(table.entries()),
            forall|j: int, k: int|
                0 <= j < s && 0 <= k < set_package_names(group@.sets[j]).len() ==> has_entry(
                    table.entries(),
                    #[trigger] set_package_names(group@.sets[j])[k],
                ),
        decreases sets@.len() - s,
    {
        let ghost before = table.entries();
        assert(group@.sets[s as int] == sets@[s as int]@);
        match sets[s].packages() {
            Some(packages) => {
                add_package_dirs(table, packages);
            },
            None => {},
        }
        proof {
            let t = table.entries();
            assert forall|i: int| 0 <= i < start.len() implies #[trigger] t[i] == start[i] by {
                assert(t[i] == before[i]);
            }
            assert forall|j: int, k: int|
                0 <= j < s + 1 && 0 <= k < set_package_names(group@.sets[j]).len() implies has_entry(
                    t,
                    #[trigger] set_package_names(group@.sets[j])[k],
                ) by {
                if j < s {
                    lemma_has_entry_kept(before, t, set_package_names(group@.sets[j])[k]);
                }
            }
        }
        s += 1;
    }
}

/// `vars` extended by `pairs` in order, each key and value first templated against the
/// variables gathered so far.
pub open spec fn extend_templated(
    vars: Map<Seq<char>, Seq<char>>,
    pairs: Seq<(Seq<char>, Seq<char>)>,
) -> Map<Seq<char>, Seq<char>>
    decreases pairs.len(),
{
    if pairs.len() == 0 {
        vars
    } else {
        let prev = extend_templated(vars, pairs.drop_last());
        prev.insert(substitute(pairs.last().0, prev), substitute(pairs.last().1, prev))
    }
}

/// Adds `other_vars` to a copy of `existing_vars`, in order; each key and value is first
/// templated against the variables gathered so far, so that they may refer to built-in
/// variables and to earlier ones.
pub fn add_other_vars(existing_vars: &StringMap, other_vars: &StringMap) -> (r: StringMap)
    ensures
        r@ == extend_templated(existing_vars@, other_vars.pairs()),
{
    let mut r = existing_vars.clone();
    let n = other_vars.len();
    let mut i: usize = 0;
    while i < n
        invariant
            n == other_vars.pairs().len(),
            i <= n,
            r@ == extend_templated(existing_vars@, other_vars.pairs().subrange(0, i as int)),
        decreases n - i,
    {
        let key = var_string_replace(other_vars.key_at(i).as_str(), &r);
        let value = var_string_replace(other_vars.value_at(i).as_str(), &r);
        r.insert(key, value);
        assert(other_vars.pairs().subrange(0, i + 1).drop_last() =~= other_vars.pairs().subrange(
            0,
            i as int,
        ));
        i += 1;
    }
    assert(other_vars.pairs().subrange(0, i as int) =~= other_vars.pairs());
    r
}

/// The upper-case form of a string, as `str::to_uppercase` computes it.
pub uninterp spec fn upper_of(s: Seq<char>) -> Seq<char>;

/// Relies on `str::to_uppercase`: the result depends on the string alone.
#[verifier::external_body]
fn to_upper(s: &str) -> (r: String)
    ensures
        r@ == upper_of(s@),
{
    s.to_uppercase()
}

/// The environment variable name for a variable: the prefix, `_`, and the key upper-cased.
pub open spec fn env_name_of(prefix: Seq<char>, key: Seq<char>) -> Seq<char> {
    prefix + "_"@ + upper_of(key)
}

/// The `PATH` of a sub-process: the current one followed by the repository's local `bin`
/// directory.
pub open spec fn extended_path(current: Seq<char>, local: Seq<char>) -> Seq<char> {
    current + ":"@ + joined(local, "bin"@)
}

/// The variables as environment variables for a sub-process, in the variables' order: each
/// key upper-cased and prefixed with `prefix` and `_`. When the current `PATH` is known,
/// a last entry sets `PATH` to it extended with the `bin` directory of `local`, the
/// repository's local directory.
pub fn vars_to_env_vars(
    variables: &StringMap,
    prefix: &str,
    path_var: Option<&str>,
    local: &str,
) -> (r: Vec<(String, String)>)
    ensures
        r@.len() == variables.pairs().len() + if path_var is Some {
            1int
        } else {
            0int
        },
        forall|i: int|
            0 <= i < variables.pairs().len() ==> (#[trigger] r@[i]).0@ == env_name_of(
                prefix@,
                variables.pairs()[i].0,
            ) && r@[i].1@ == variables.pairs()[i].1,
        match path_var {
            Some(p) => r@.last().0@ == "PATH"@ && r@.last().1@ == extended_path(p@, local@),
            None => true,
        },
{
    let n = variables.len();
    let mut r: Vec<(String, String)> = Vec::new();
    let mut i: usize = 0;
    while i < n
        invariant
            n == variables.pairs().len(),
            i <= n,
            r@.len() == i,
            forall|j: int|
                0 <= j < i ==> (#[trigger] r@[j]).0@ == env_name_of(
                    prefix@,
                    variables.pairs()[j].0,
                ) && r@[j].1@ == variables.pairs()[j].1,
        decreases n - i,
    {
        let mut name = String::from_str(prefix);
        name.append("_");
        name.append(to_upper(variables.key_at(i).as_str()).as_str());
        proof {
            reveal_strlit("_");
        }
        r.push((name, variables.value_at(i).clone()));
        i += 1;
    }
    match path_var {
        Some(p) => {
            let mut value = String::from_str(p);
            value.append(":");
            value.append(crate::paths::path_join(local, "bin").as_str());
            proof {
                reveal_strlit(":");
                reveal_strlit("PATH");
            }
            r.push((String::from_str("PATH"), value));
        },
        None => {},
    }
    r
}

} // verus!
