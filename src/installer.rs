//! Installers, the commands they run for each action, and the registry that selects one
//! by platform and package kind.
use vstd::prelude::*;

use crate::command::ShellCommand;
use crate::error::ErrorKind;
use crate::name::{KindView, Name, PackageKind, Platform, platform_matches, resolve_platform};
use crate::packages::Package;
use crate::strmap::StringMap;
use crate::template::{safe_text, substitute};
use crate::strmap::{keys_unique, lemma_absent, lemma_lookup, lemma_update, pairs_to_map};

verus! {

/// An action that an installer, or a package set's scripts, may perform.
#[derive(Clone, Copy, Debug, PartialEq, Eq, Structural, Hash)]
pub enum InstallActionKind {
    Install,
    Update,
    Uninstall,
    LinkFiles,
}

pub open spec fn action_text(a: InstallActionKind) -> Seq<char> {
    match a {
        InstallActionKind::Install => "install"@,
        InstallActionKind::Update => "update"@,
        InstallActionKind::Uninstall => "uninstall"@,
        InstallActionKind::LinkFiles => "link"@,
    }
}

impl InstallActionKind {
    /// The action's name as it is handed to commands.
    pub fn to_string(&self) -> (r: String)
        ensures
            r@ == action_text(*self),
    {
        match self {
            InstallActionKind::Install => String::from_str("install"),
            InstallActionKind::Update => String::from_str("update"),
            InstallActionKind::Uninstall => String::from_str("uninstall"),
            InstallActionKind::LinkFiles => String::from_str("link"),
        }
    }
}

/// The text of an optional string.
pub open spec fn opt_text(o: Option<String>) -> Option<Seq<char>> {
    match o {
        Some(s) => Some(s@),
        None => None,
    }
}

pub open spec fn opt_insert(
    m: Map<InstallActionKind, Seq<char>>,
    a: InstallActionKind,
    o: Option<String>,
) -> Map<InstallActionKind, Seq<char>> {
    match o {
        Some(s) => m.insert(a, s@),
        None => m,
    }
}

/// A command template for each action; an action may have none.
#[derive(Debug)]
pub struct CommandMap {
    install: Option<String>,
    update: Option<String>,
    uninstall: Option<String>,
    link_files: Option<String>,
}

impl View for CommandMap {
    type V = Map<InstallActionKind, Seq<char>>;

    closed spec fn view(&self) -> Map<InstallActionKind, Seq<char>> {
        opt_insert(
            opt_insert(
                opt_insert(
                    opt_insert(Map::empty(), InstallActionKind::Install, self.install),
                    InstallActionKind::Update,
                    self.update,
                ),
                InstallActionKind::Uninstall,
                self.uninstall,
            ),
            InstallActionKind::LinkFiles,
            self.link_files,
        )
    }
}

fn clone_opt(o: &Option<String>) -> (r: Option<String>)
    ensures
        r == *o,
{
    match o {
        Some(s) => Some(s.clone()),
        None => None,
    }
}

impl Clone for CommandMap {
    fn clone(&self) -> (r: Self)
        ensures
            r@ == self@,
    {
        CommandMap {
            install: clone_opt(&self.install),
            update: clone_opt(&self.update),
            uninstall: clone_opt(&self.uninstall),
            link_files: clone_opt(&self.link_files),
        }
    }
}

impl CommandMap {
    /// A map with no commands.
    pub fn new() -> (r: Self)
        ensures
            r@ == Map::<InstallActionKind, Seq<char>>::empty(),
    {
        let r = CommandMap { install: None, update: None, uninstall: None, link_files: None };
        assert(r@ =~= Map::<InstallActionKind, Seq<char>>::empty());
        r
    }

    /// The number of actions that have a command.
    pub fn len(&self) -> (r: usize)
        ensures
            self@.dom().finite(),
            r == self@.len(),
    {
        let mut n: usize = 0;
        let ghost m0 = Map::<InstallActionKind, Seq<char>>::empty();
        if self.install.is_some() {
            n += 1;
        }
        let ghost m1 = opt_insert(m0, InstallActionKind::Install, self.install);
        assert(m1.dom().finite() && m1.len() == n);
        if self.update.is_some() {
            n += 1;
        }
        let ghost m2 = opt_insert(m1, InstallActionKind::Update, self.update);
        assert(!m1.dom().contains(InstallActionKind::Update));
        assert(m2.dom().finite() && m2.len() == n);
        if self.uninstall.is_some() {
            n += 1;
        }
        let ghost m3 = opt_insert(m2, InstallActionKind::Uninstall, self.uninstall);
        assert(!m2.dom().contains(InstallActionKind::Uninstall));
        assert(m3.dom().finite() && m3.len() == n);
        if self.link_files.is_some() {
            n += 1;
        }
        assert(!m3.dom().contains(InstallActionKind::LinkFiles));
        n
    }

    /// Returns `true` if no action has a command.
    pub fn is_empty(&self) -> (r: bool)
        ensures
            r == (self@.len() == 0),
    {
        self.len() == 0
    }

    /// The command for `action`, if there is one.
    pub fn get(&self, action: &InstallActionKind) -> (r: Option<&String>)
        ensures
            r is Some <==> self@.contains_key(*action),
            r is Some ==> r->Some_0@ == self@[*action],
    {
        match action {
            InstallActionKind::Install => self.install.as_ref(),
            InstallActionKind::Update => self.update.as_ref(),
            InstallActionKind::Uninstall => self.uninstall.as_ref(),
            InstallActionKind::LinkFiles => self.link_files.as_ref(),
        }
    }

    /// Sets the command for `action`, replacing any earlier one.
    pub fn insert(&mut self, action: InstallActionKind, command: String)
        ensures
            final(self)@ == old(self)@.insert(action, command@),
    {
        match action {
            InstallActionKind::Install => self.install = Some(command),
            InstallActionKind::Update => self.update = Some(command),
            InstallActionKind::Uninstall => self.uninstall = Some(command),
            InstallActionKind::LinkFiles => self.link_files = Some(command),
        }
        assert(self@ =~= old(self)@.insert(action, command@));
    }

    /// Builds a map from `(action, command)` pairs; a later pair for an action wins.
    pub fn from_list(commands: &[(InstallActionKind, String)]) -> (r: Self)
        ensures
            r@ == pairs_to_map(commands@.map_values(|p: (InstallActionKind, String)| (p.0, p.1@))),
    {
        let ghost src = commands@.map_values(|p: (InstallActionKind, String)| (p.0, p.1@));
        let mut r = CommandMap::new();
        let mut i: usize = 0;
        while i < commands.len()
            invariant
                i <= commands@.len(),
                src == commands@.map_values(|p: (InstallActionKind, String)| (p.0, p.1@)),
                r@ == pairs_to_map(src.subrange(0, i as int)),
            decreases commands@.len() - i,
        {
            r.insert(commands[i].0, commands[i].1.clone());
            assert(src.subrange(0, i + 1).drop_last() =~= src.subrange(0, i as int));
            i += 1;
        }
        assert(src.subrange(0, i as int) =~= src);
        r
    }
}

/// The model of an installer.
pub ghost struct InstallerView {
    pub name: Seq<char>,
    pub platform: Option<Platform>,
    pub kind: KindView,
    pub if_exists: Option<Seq<char>>,
    pub commands: Map<InstallActionKind, Seq<char>>,
    pub update_self: Option<Seq<char>>,
}

/// How to install, update or uninstall one kind of package on a platform (or on any
/// platform), with an optional guard path that must exist for the installer to be used.
#[derive(Debug)]
pub struct Installer {
    name: Name,
    platform: Option<Platform>,
    kind: PackageKind,
    if_exists: Option<String>,
    commands: CommandMap,
    update_self: Option<String>,
}

impl View for Installer {
    type V = InstallerView;

    closed spec fn view(&self) -> InstallerView {
        InstallerView {
            name: self.name@,
            platform: self.platform,
            kind: self.kind@,
            if_exists: opt_text(self.if_exists),
            commands: self.commands@,
            update_self: opt_text(self.update_self),
        }
    }
}

impl Clone for Installer {
    fn clone(&self) -> (r: Self)
        ensures
            r@ == self@,
    {
        Installer {
            name: self.name.clone(),
            platform: self.platform,
            kind: self.kind.clone(),
            if_exists: clone_opt(&self.if_exists),
            commands: self.commands.clone(),
            update_self: clone_opt(&self.update_self),
        }
    }
}

impl PartialEq for Installer {
    fn eq(&self, other: &Installer) -> (r: bool)
        ensures
            r == (self@ == other@),
    {
        let r = self.name == other.name && self.platform == other.platform && self.kind
            == other.kind && opt_eq(&self.if_exists, &other.if_exists) && self.commands.same_as(
            &other.commands,
        ) && opt_eq(&self.update_self, &other.update_self);
        r
    }
}

impl vstd::std_specs::cmp::PartialEqSpecImpl for Installer {
    open spec fn obeys_eq_spec() -> bool {
        true
    }

    open spec fn eq_spec(&self, other: &Installer) -> bool {
        self@ == other@
    }
}

/// Compares two optional strings by their text.
pub fn opt_eq(a: &Option<String>, b: &Option<String>) -> (r: bool)
    ensures
        r == (opt_text(*a) == opt_text(*b)),
{
    match (a, b) {
        (None, None) => true,
        (Some(x), Some(y)) => *x == *y,
        _ => false,
    }
}

impl CommandMap {
    /// Returns `true` if both maps hold the same commands.
    pub fn same_as(&self, other: &CommandMap) -> (r: bool)
        ensures
            r == (self@ == other@),
    {
        let r = opt_eq(&self.install, &other.install) && opt_eq(&self.update, &other.update)
            && opt_eq(&self.uninstall, &other.uninstall) && opt_eq(
            &self.link_files,
            &other.link_files,
        );
        proof {
            if !r {
                if opt_text(self.install) != opt_text(other.install) {
                    assert(self@.contains_key(InstallActionKind::Install) != other@.contains_key(
                        InstallActionKind::Install,
                    ) || self@[InstallActionKind::Install] != other@[InstallActionKind::Install]);
                } else if opt_text(self.update) != opt_text(other.update) {
                    assert(self@.contains_key(InstallActionKind::Update) != other@.contains_key(
                        InstallActionKind::Update,
                    ) || self@[InstallActionKind::Update] != other@[InstallActionKind::Update]);
                } else if opt_text(self.uninstall) != opt_text(other.uninstall) {
                    assert(self@.contains_key(InstallActionKind::Uninstall)
                        != other@.contains_key(InstallActionKind::Uninstall)
                        || self@[InstallActionKind::Uninstall]
                        != other@[InstallActionKind::Uninstall]);
                } else {
                    assert(self@.contains_key(InstallActionKind::LinkFiles)
                        != other@.contains_key(InstallActionKind::LinkFiles)
                        || self@[InstallActionKind::LinkFiles]
                        != other@[InstallActionKind::LinkFiles]);
                }
            } else {
                assert(self@ =~= other@);
            }
        }
        r
    }
}

impl Installer {
    /// The name of this installer.
    pub fn name(&self) -> (r: &Name)
        ensures
            r@ == self@.name,
    {
        &self.name
    }

    /// Returns `true` if this installer may be used on the `current` platform.
    pub fn is_platform_match(&self, current: Platform) -> (r: bool)
        ensures
            r == crate::name::platform_matches(current, self@.platform),
    {
        current.is_match(&self.platform)
    }

    /// The guard path, if any, that must exist for this installer to be used.
    pub fn if_exists(&self) -> (r: &Option<String>)
        ensures
            opt_text(*r) == self@.if_exists,
    {
        &self.if_exists
    }

    /// Returns `true` if this installer has no guard path, or `path_exists` reports that
    /// its guard path exists.
    pub fn if_exists_match(&self, path_exists: bool) -> (r: bool)
        ensures
            r == (self@.if_exists is None || path_exists),
    {
        match &self.if_exists {
            None => true,
            Some(_) => path_exists,
        }
    }

    /// The platform this installer is for, with no constraint meaning `current`.
    pub fn platform(&self, current: Platform) -> (r: Platform)
        ensures
            r == resolve_platform(current, self@.platform),
    {
        Platform::resolve(current, &self.platform)
    }

    /// The platform constraint as written, if any.
    pub fn platform_constraint(&self) -> (r: Option<Platform>)
        ensures
            r == self@.platform,
    {
        self.platform
    }

    /// The kind of package this installer handles.
    pub fn kind(&self) -> (r: PackageKind)
        ensures
            r@ == self@.kind,
    {
        self.kind.clone()
    }

    /// The command template for each action.
    pub fn commands(&self) -> (r: &CommandMap)
        ensures
            r@ == self@.commands,
    {
        &self.commands
    }

    /// The command template for `kind`, if this installer supports that action.
    pub fn command_for(&self, kind: &InstallActionKind) -> (r: Option<&String>)
        ensures
            r is Some <==> self@.commands.contains_key(*kind),
            r is Some ==> r->Some_0@ == self@.commands[*kind],
    {
        self.commands.get(kind)
    }

    /// Returns `true` if this installer can update itself.
    pub fn has_update_self(&self) -> (r: bool)
        ensures
            r == self@.update_self is Some,
    {
        self.update_self.is_some()
    }

    /// The command that updates the installer itself, if any.
    pub fn update_self(&self) -> (r: &Option<String>)
        ensures
            opt_text(*r) == self@.update_self,
    {
        &self.update_self
    }
}

impl Installer {
    /// Decides what this installer does for `package` and `action`: nothing when either does
    /// not apply to the `current` platform (a set may hold packages for several platforms);
    /// `WrongInstallerForKind` when the package is of another kind; otherwise the action's
    /// command prepared with `vars`, or nothing when the installer has no command for it.
    pub fn package_action(
        &self,
        action: &InstallActionKind,
        package: &Package,
        vars: &StringMap,
        current: Platform,
    ) -> (r: Result<Option<ShellCommand>, ErrorKind>)
        ensures
            !(platform_matches(current, self@.platform) && platform_matches(
                current,
                package@.platform,
            )) ==> r matches Ok(None),
            platform_matches(current, self@.platform) && platform_matches(current, package@.platform)
                ==> if self@.kind == package@.kind {
                match r {
                    Ok(Some(c)) => self@.commands.contains_key(*action) && c.script_text()
                        == safe_text(substitute(self@.commands[*action], vars@)) && c.vars_map()
                        == vars@,
                    Ok(None) => !self@.commands.contains_key(*action),
                    Err(_) => false,
                }
            } else {
                r matches Err(ErrorKind::WrongInstallerForKind(k)) && k@ == self@.kind
            },
    {
        if self.is_platform_match(current) && package.is_platform_match(current) {
            if self.kind == *package.kind() {
                match self.commands.get(action) {
                    Some(cmd) => Ok(Some(ShellCommand::prepare(cmd.as_str(), vars))),
                    None => Ok(None),
                }
            } else {
                Err(ErrorKind::WrongInstallerForKind(self.kind.clone()))
            }
        } else {
            Ok(None)
        }
    }
}

/// Builds `Installer` values step by step.
#[derive(Debug)]
pub struct InstallerBuilder {
    inner: Installer,
}

impl View for InstallerBuilder {
    type V = InstallerView;

    closed spec fn view(&self) -> InstallerView {
        self.inner@
    }
}

impl InstallerBuilder {
    /// A builder for an installer named `name`, for any platform and default packages, with
    /// no commands.
    pub fn named(name: Name) -> (r: Self)
        ensures
            r@ == (InstallerView {
                name: name@,
                platform: None,
                kind: KindView::Default,
                if_exists: None,
                commands: Map::empty(),
                update_self: None,
            }),
    {
        InstallerBuilder {
            inner: Installer {
                name,
                platform: None,
                kind: PackageKind::Default,
                if_exists: None,
                commands: CommandMap::new(),
                update_self: None,
            },
        }
    }

    /// The installer built so far.
    pub fn build(&self) -> (r: Installer)
        ensures
            r@ == self@,
    {
        self.inner.clone()
    }

    /// Sets a guard path: the installer is used only where it exists.
    pub fn if_exists(&mut self, path: &str) -> (r: &mut Self)
        ensures
            r@ == (InstallerView { if_exists: Some(path@), ..old(self)@ }),
            *final(self) == *final(r),
    {
        self.inner.if_exists = Some(String::from_str(path));
        self
    }

    /// Sets a guard path: the installer is used only where it exists.
    pub fn if_exists_path(&mut self, path: &String) -> (r: &mut Self)
        ensures
            r@ == (InstallerView { if_exists: Some(path@), ..old(self)@ }),
            *final(self) == *final(r),
    {
        self.if_exists(path.as_str())
    }

    /// Restricts the installer to `platform`.
    pub fn for_platform(&mut self, platform: Platform) -> (r: &mut Self)
        ensures
            r@ == (InstallerView { platform: Some(platform), ..old(self)@ }),
            *final(self) == *final(r),
    {
        self.inner.platform = Some(platform);
        self
    }

    /// Restricts the installer to macOS.
    pub fn for_macos_only(&mut self) -> (r: &mut Self)
        ensures
            r@ == (InstallerView { platform: Some(Platform::Macos), ..old(self)@ }),
            *final(self) == *final(r),
    {
        self.for_platform(Platform::Macos)
    }

    /// Restricts the installer to Linux.
    pub fn for_linux_only(&mut self) -> (r: &mut Self)
        ensures
            r@ == (InstallerView { platform: Some(Platform::Linux), ..old(self)@ }),
            *final(self) == *final(r),
    {
        self.for_platform(Platform::Linux)
    }

    /// Removes any platform restriction.
    pub fn for_any_platform(&mut self) -> (r: &mut Self)
        ensures
            r@ == (InstallerView { platform: None, ..old(self)@ }),
            *final(self) == *final(r),
    {
        self.inner.platform = None;
        self
    }

    /// Sets the kind of package the installer handles.
    pub fn of_kind(&mut self, kind: PackageKind) -> (r: &mut Self)
        ensures
            r@ == (InstallerView { kind: kind@, ..old(self)@ }),
            *final(self) == *final(r),
    {
        self.inner.kind = kind;
        self
    }

    /// The installer handles default packages.
    pub fn for_default_packages(&mut self) -> (r: &mut Self)
        ensures
            r@ == (InstallerView { kind: KindView::Default, ..old(self)@ }),
            *final(self) == *final(r),
    {
        self.of_kind(PackageKind::Default)
    }

    /// The installer handles application packages.
    pub fn for_application_packages(&mut self) -> (r: &mut Self)
        ensures
            r@ == (InstallerView { kind: KindView::Application, ..old(self)@ }),
            *final(self) == *final(r),
    {
        self.of_kind(PackageKind::Application)
    }

    /// The installer handles packages of the language `language`.
    pub fn for_language_packages(&mut self, language: &Name) -> (r: &mut Self)
        ensures
            r@ == (InstallerView { kind: KindView::Language(language@), ..old(self)@ }),
            *final(self) == *final(r),
    {
        self.of_kind(PackageKind::Language(language.clone()))
    }

    /// Replaces all commands with those of the list; a later pair for an action wins.
    pub fn commands_list(&mut self, commands: &[(InstallActionKind, String)]) -> (r: &mut Self)
        ensures
            r@ == (InstallerView {
                commands: pairs_to_map(
                    commands@.map_values(|p: (InstallActionKind, String)| (p.0, p.1@)),
                ),
                ..old(self)@
            }),
            *final(self) == *final(r),
    {
        self.commands(CommandMap::from_list(commands))
    }

    /// Replaces all commands.
    pub fn commands(&mut self, commands: CommandMap) -> (r: &mut Self)
        ensures
            r@ == (InstallerView { commands: commands@, ..old(self)@ }),
            *final(self) == *final(r),
    {
        self.inner.commands = commands;
        self
    }

    /// Sets the command for one action.
    pub fn add_command(&mut self, kind: InstallActionKind, script_string: &str) -> (r: &mut Self)
        ensures
            r@ == (InstallerView {
                commands: old(self)@.commands.insert(kind, script_string@),
                ..old(self)@
            }),
            *final(self) == *final(r),
    {
        self.inner.commands.insert(kind, String::from_str(script_string));
        self
    }

    /// Sets the install command.
    pub fn add_install_command(&mut self, script_string: &str) -> (r: &mut Self)
        ensures
            r@ == (InstallerView {
                commands: old(self)@.commands.insert(InstallActionKind::Install, script_string@),
                ..old(self)@
            }),
            *final(self) == *final(r),
    {
        self.add_command(InstallActionKind::Install, script_string)
    }

    /// Sets the update command.
    pub fn add_update_command(&mut self, script_string: &str) -> (r: &mut Self)
        ensures
            r@ == (InstallerView {
                commands: old(self)@.commands.insert(InstallActionKind::Update, script_string@),
                ..old(self)@
            }),
            *final(self) == *final(r),
    {
        self.add_command(InstallActionKind::Update, script_string)
    }

    /// Sets the uninstall command.
    pub fn add_uninstall_command(&mut self, script_string: &str) -> (r: &mut Self)
        ensures
            r@ == (InstallerView {
                commands: old(self)@.commands.insert(
                    InstallActionKind::Uninstall,
                    script_string@,
                ),
                ..old(self)@
            }),
            *final(self) == *final(r),
    {
        self.add_command(InstallActionKind::Uninstall, script_string)
    }

    /// Sets the link-files command.
    pub fn add_link_files_command(&mut self, script_string: &str) -> (r: &mut Self)
        ensures
            r@ == (InstallerView {
                commands: old(self)@.commands.insert(
                    InstallActionKind::LinkFiles,
                    script_string@,
                ),
                ..old(self)@
            }),
            *final(self) == *final(r),
    {
        self.add_command(InstallActionKind::LinkFiles, script_string)
    }

    /// Sets the command that updates the installer itself.
    pub fn update_self_command(&mut self, script_string: &str) -> (r: &mut Self)
        ensures
            r@ == (InstallerView { update_self: Some(script_string@), ..old(self)@ }),
            *final(self) == *final(r),
    {
        self.inner.update_self = Some(String::from_str(script_string));
        self
    }
}

/// The registry key of an installer: its resolved platform and its kind.
pub open spec fn registry_key(current: Platform, v: InstallerView) -> (Platform, KindView) {
    (resolve_platform(current, v.platform), v.kind)
}

/// Installers paired with their registry keys.
pub open spec fn keyed(current: Platform, s: Seq<InstallerView>) -> Seq<
    ((Platform, KindView), InstallerView),
> {
    s.map_values(|v: InstallerView| (registry_key(current, v), v))
}

/// The index that a list of installers describes: one installer per key, the last loaded
/// for a key winning.
pub open spec fn registry_of(current: Platform, s: Seq<InstallerView>) -> Map<
    (Platform, KindView),
    InstallerView,
> {
    pairs_to_map(keyed(current, s))
}

/// Whether an installer is kept at load time: it matches the current platform, and its guard
/// path, if any, exists.
pub open spec fn usable(current: Platform, v: InstallerView, guard_exists: bool) -> bool {
    crate::name::platform_matches(current, v.platform) && (v.if_exists is None || guard_exists)
}

/// The installers kept at load time, in order.
pub open spec fn kept(current: Platform, s: Seq<InstallerView>, g: Seq<bool>) -> Seq<InstallerView>
    decreases s.len(),
{
    if s.len() == 0 || g.len() != s.len() {
        Seq::empty()
    } else {
        let p = kept(current, s.drop_last(), g.drop_last());
        if usable(current, s.last(), g.last()) {
            p.push(s.last())
        } else {
            p
        }
    }
}

/// Loading installers with the same key is not an error: the later one is what the index
/// holds for that key, and an earlier one with that key adds no entry of its own.
pub proof fn lemma_later_installer_wins(current: Platform, s: Seq<InstallerView>, b: InstallerView)
    ensures
        registry_of(current, s.push(b)).contains_key(registry_key(current, b)),
        registry_of(current, s.push(b))[registry_key(current, b)] == b,
        registry_of(current, s).contains_key(registry_key(current, b)) ==> registry_of(
            current,
            s.push(b),
        ).dom() == registry_of(current, s).dom(),
{
    assert(keyed(current, s.push(b)).drop_last() =~= keyed(current, s));
    assert(keyed(current, s.push(b)).last() == (registry_key(current, b), b));
    if registry_of(current, s).contains_key(registry_key(current, b)) {
        assert(registry_of(current, s.push(b)).dom() =~= registry_of(current, s).dom());
    }
}

/// The names of the installers that replace an earlier installer with the same key, in
/// load order.
pub open spec fn replaced_names(current: Platform, s: Seq<InstallerView>) -> Seq<Seq<char>>
    decreases s.len(),
{
    if s.len() == 0 {
        Seq::empty()
    } else {
        let prev = replaced_names(current, s.drop_last());
        if registry_of(current, s.drop_last()).contains_key(registry_key(current, s.last())) {
            prev.push(s.last().name)
        } else {
            prev
        }
    }
}

/// The names of the installers dropped at load time, in order.
pub open spec fn discarded_names(current: Platform, s: Seq<InstallerView>, g: Seq<bool>) -> Seq<
    Seq<char>,
>
    decreases s.len(),
{
    if s.len() == 0 || g.len() != s.len() {
        Seq::empty()
    } else {
        let p = discarded_names(current, s.drop_last(), g.drop_last());
        if usable(current, s.last(), g.last()) {
            p
        } else {
            p.push(s.last().name)
        }
    }
}

pub open spec fn name_texts(s: Seq<Name>) -> Seq<Seq<char>> {
    s.map_values(|n: Name| n@)
}

pub open spec fn views(s: Seq<Installer>) -> Seq<InstallerView> {
    s.map_values(|i: Installer| i@)
}

/// The installers of the current platform, indexed by (platform, kind).
#[derive(Debug)]
pub struct InstallerRegistry {
    current: Platform,
    installers: Vec<Installer>,
}

impl InstallerRegistry {
    #[verifier::type_invariant]
    spec fn wf(self) -> bool {
        keys_unique(keyed(self.current, views(self.installers@)))
    }

    /// The platform this registry resolves unconstrained installers to.
    pub closed spec fn current(&self) -> Platform {
        self.current
    }

    /// The installers held, in load order of their first key occurrence.
    pub closed spec fn entries(&self) -> Seq<InstallerView> {
        views(self.installers@)
    }
}

impl View for InstallerRegistry {
    type V = Map<(Platform, KindView), InstallerView>;

    open spec fn view(&self) -> Map<(Platform, KindView), InstallerView> {
        registry_of(self.current(), self.entries())
    }
}

/// The outcome of loading installers: the registry, the names of installers dropped because
/// they do not apply here, and the names of installers that replaced an earlier one with
/// the same key.
#[derive(Debug)]
pub struct LoadedRegistry {
    pub registry: InstallerRegistry,
    pub discarded: Vec<Name>,
    pub replaced: Vec<Name>,
}

impl InstallerRegistry {
    /// Indexes `installers` by (resolved platform, kind); for a duplicate key the later
    /// installer replaces the earlier, and its name is reported.
    pub fn from_installers(installers: &Vec<Installer>, current: Platform) -> (r: (
        InstallerRegistry,
        Vec<Name>,
    ))
        ensures
            r.0.current() == current,
            r.0@ == registry_of(current, views(installers@)),
            name_texts(r.1@) == replaced_names(current, views(installers@)),
    {
        let ghost src = views(installers@);
        let mut entries: Vec<Installer> = Vec::new();
        let mut replaced: Vec<Name> = Vec::new();
        let mut i: usize = 0;
        while i < installers.len()
            invariant
                i <= installers@.len(),
                src == views(installers@),
                keys_unique(keyed(current, views(entries@))),
                pairs_to_map(keyed(current, views(entries@))) == registry_of(
                    current,
                    src.subrange(0, i as int),
                ),
                name_texts(replaced@) == replaced_names(current, src.subrange(0, i as int)),
            decreases installers@.len() - i,
        {
            let inst = &installers[i];
            let platform = inst.platform(current);
            let kind = inst.kind();
            let ghost before = keyed(current, views(entries@));
            let ghost key = registry_key(current, inst@);
            let found = find_key(&entries, current, platform, &kind);
            let ghost rep_before = replaced@;
            proof {
                let pre = src.subrange(0, i + 1);
                assert(pre.drop_last() =~= src.subrange(0, i as int));
                assert(pre.last() == inst@);
            }
            if let Some(j) = found {
                proof {
                    lemma_update(before, j as int, inst@);
                    lemma_lookup(before, j as int);
                }
                replaced.push(inst.name().clone());
                assert(name_texts(replaced@) =~= name_texts(rep_before).push(inst@.name));
                entries.set(j, inst.clone());
                assert(keyed(current, views(entries@)) =~= before.update(
                    j as int,
                    (before[j as int].0, inst@),
                ));
            } else {
                proof {
                    lemma_absent(before, key);
                }
                assert(name_texts(replaced@) == replaced_names(current, src.subrange(0, i + 1)));
                entries.push(inst.clone());
                assert(keyed(current, views(entries@)) =~= before.push((key, inst@)));
                assert(before.push((key, inst@)).drop_last() =~= before);
            }
            proof {
                let pre = src.subrange(0, i + 1);
                assert(pre.drop_last() =~= src.subrange(0, i as int));
                assert(keyed(current, pre).drop_last() =~= keyed(current, pre.drop_last()));
                assert(keyed(current, pre).last() == (key, inst@));
            }
            i += 1;
        }
        assert(src.subrange(0, i as int) =~= src);
        (InstallerRegistry { current, installers: entries }, replaced)
    }

    /// Keeps the installers that apply here, then indexes them as `from_installers` does.
    /// `guard_exists[i]` tells whether the guard path of `installers[i]` exists.
    pub fn load(installers: &Vec<Installer>, guard_exists: &Vec<bool>, current: Platform) -> (r:
        LoadedRegistry)
        requires
            guard_exists@.len() == installers@.len(),
        ensures
            r.registry.current() == current,
            r.registry@ == registry_of(current, kept(current, views(installers@), guard_exists@)),
            name_texts(r.discarded@) == discarded_names(current, views(installers@), guard_exists@),
            name_texts(r.replaced@) == replaced_names(
                current,
                kept(current, views(installers@), guard_exists@),
            ),
    {
        let ghost src = views(installers@);
        let mut keep: Vec<Installer> = Vec::new();
        let mut discarded: Vec<Name> = Vec::new();
        let mut i: usize = 0;
        while i < installers.len()
            invariant
                i <= installers@.len(),
                guard_exists@.len() == installers@.len(),
                src == views(installers@),
                views(keep@) == kept(
                    current,
                    src.subrange(0, i as int),
                    guard_exists@.subrange(0, i as int),
                ),
                name_texts(discarded@) == discarded_names(
                    current,
                    src.subrange(0, i as int),
                    guard_exists@.subrange(0, i as int),
                ),
            decreases installers@.len() - i,
        {
            let inst = &installers[i];
            let ghost before = views(keep@);
            let ghost dis_before = discarded@;
            if inst.is_platform_match(current) && inst.if_exists_match(guard_exists[i]) {
                keep.push(inst.clone());
                assert(views(keep@) =~= before.push(inst@));
            } else {
                discarded.push(inst.name().clone());
                assert(name_texts(discarded@) =~= name_texts(dis_before).push(inst@.name));
            }
            assert(src.subrange(0, i + 1).drop_last() =~= src.subrange(0, i as int));
            assert(guard_exists@.subrange(0, i + 1).drop_last() =~= guard_exists@.subrange(
                0,
                i as int,
            ));
            i += 1;
        }
        assert(src.subrange(0, i as int) =~= src);
        assert(guard_exists@.subrange(0, i as int) =~= guard_exists@);
        let (registry, replaced) = InstallerRegistry::from_installers(&keep, current);
        LoadedRegistry { registry, discarded, replaced }
    }

    /// The platform this registry resolves unconstrained installers to.
    pub fn current_platform(&self) -> (r: Platform)
        ensures
            r == self.current(),
    {
        self.current
    }

    /// Returns `true` if the registry holds no installer.
    pub fn is_empty(&self) -> (r: bool)
        ensures
            r == (self@.len() == 0),
    {
        proof {
            use_type_invariant(self);
            crate::strmap::lemma_map_len(keyed(self.current, views(self.installers@)));
        }
        self.installers.len() == 0
    }

    /// The number of installers held.
    pub fn len(&self) -> (r: usize)
        ensures
            r == self@.len(),
    {
        proof {
            use_type_invariant(self);
            crate::strmap::lemma_map_len(keyed(self.current, views(self.installers@)));
        }
        self.installers.len()
    }

    /// All installers held.
    pub fn installers(&self) -> (r: &Vec<Installer>)
        ensures
            views(r@) == self.entries(),
    {
        &self.installers
    }

    /// The installer for `platform` and `kind`, if any: an exact lookup on both.
    pub fn installer_for(&self, platform: Platform, kind: &PackageKind) -> (r: Option<&Installer>)
        ensures
            r is Some <==> self@.contains_key((platform, kind@)),
            r is Some ==> r->Some_0@ == self@[(platform, kind@)],
    {
        proof {
            use_type_invariant(self);
        }
        let ghost ks = keyed(self.current, views(self.installers@));
        match find_key(&self.installers, self.current, platform, kind) {
            Some(j) => {
                proof {
                    lemma_lookup(ks, j as int);
                }
                Some(&self.installers[j])
            },
            None => {
                proof {
                    lemma_absent(ks, (platform, kind@));
                }
                None
            },
        }
    }
}

/// The position of the installer with key (`platform`, `kind`), if any.
fn find_key(entries: &Vec<Installer>, current: Platform, platform: Platform, kind: &PackageKind) -> (r:
    Option<usize>)
    ensures
        match r {
            Some(j) => j < entries@.len() && keyed(current, views(entries@))[j as int].0 == (
                platform,
                kind@,
            ),
            None => forall|k: int|
                0 <= k < entries@.len() ==> (#[trigger] keyed(current, views(entries@))[k]).0 != (
                    platform,
                    kind@,
                ),
        },
{
    let ghost ks = keyed(current, views(entries@));
    let mut j: usize = 0;
    while j < entries.len()
        invariant
            j <= entries@.len(),
            ks == keyed(current, views(entries@)),
            forall|k: int| 0 <= k < j ==> (#[trigger] ks[k]).0 != (platform, kind@),
        decreases entries@.len() - j,
    {
        assert(ks[j as int] == (registry_key(current, entries@[j as int]@), entries@[j as int]@));
        if entries[j].platform(current) == platform && entries[j].kind() == *kind {
            return Some(j);
        }
        j += 1;
    }
    None
}

} // verus!
