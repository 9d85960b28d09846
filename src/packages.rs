//! Packages, package sets, groups of sets, and the repository that holds the groups.
use vstd::prelude::*;

use crate::error::ErrorKind;
use crate::installer::{CommandMap, InstallActionKind, opt_text};
use crate::name::{KindView, Name, PackageKind, Platform, platform_matches, resolve_platform};
use crate::strmap::{StringMap, text_le};

verus! {

/// The model of a package.
pub ghost struct PackageView {
    pub name: Seq<char>,
    pub platform: Option<Platform>,
    pub kind: KindView,
}

/// The unit of installation: a name, an optional platform constraint, and the kind that
/// selects its installer.
#[derive(Debug)]
pub struct Package {
    name: Name,
    platform: Option<Platform>,
    kind: PackageKind,
}

impl View for Package {
    type V = PackageView;

    closed spec fn view(&self) -> PackageView {
        PackageView { name: self.name@, platform: self.platform, kind: self.kind@ }
    }
}

impl Clone for Package {
    fn clone(&self) -> (r: Self)
        ensures
            r == *self,
    {
        Package { name: self.name.clone(), platform: self.platform, kind: self.kind.clone() }
    }
}

impl PartialEq for Package {
    fn eq(&self, other: &Package) -> (r: bool)
        ensures
            r == (self@ == other@),
    {
        self.name == other.name && self.platform == other.platform && self.kind == other.kind
    }
}

impl vstd::std_specs::cmp::PartialEqSpecImpl for Package {
    open spec fn obeys_eq_spec() -> bool {
        true
    }

    open spec fn eq_spec(&self, other: &Package) -> bool {
        self@ == other@
    }
}

fn same_packages(a: &Vec<Package>, b: &Vec<Package>) -> (r: bool)
    ensures
        r == (package_views(a@) == package_views(b@)),
{
    if a.len() != b.len() {
        return false;
    }
    let mut i: usize = 0;
    while i < a.len()
        invariant
            i <= a@.len(),
            a@.len() == b@.len(),
            forall|j: int| 0 <= j < i ==> a@[j]@ == b@[j]@,
        decreases a@.len() - i,
    {
        if !(a[i] == b[i]) {
            assert(package_views(a@)[i as int] != package_views(b@)[i as int]);
            return false;
        }
        i += 1;
    }
    assert(package_views(a@) =~= package_views(b@));
    true
}

impl PartialEq for PackageSetActions {
    fn eq(&self, other: &PackageSetActions) -> (r: bool)
        ensures
            r == (self@ == other@),
    {
        match (self, other) {
            (PackageSetActions::Packages { packages: a }, PackageSetActions::Packages { packages: b }) => {
                same_packages(a, b)
            },
            (PackageSetActions::Scripts { scripts: a }, PackageSetActions::Scripts { scripts: b }) => {
                a.same_as(b)
            },
            _ => false,
        }
    }
}

impl vstd::std_specs::cmp::PartialEqSpecImpl for PackageSetActions {
    open spec fn obeys_eq_spec() -> bool {
        true
    }

    open spec fn eq_spec(&self, other: &PackageSetActions) -> bool {
        self@ == other@
    }
}

impl Package {
    /// A package with the given name, platform constraint and kind.
    pub fn new(name: Name, platform: Option<Platform>, kind: PackageKind) -> (r: Self)
        ensures
            r@ == (PackageView { name: name@, platform, kind: kind@ }),
    {
        Package { name, platform, kind }
    }

    /// The package's name.
    pub fn name(&self) -> (r: &Name)
        ensures
            r@ == self@.name,
    {
        &self.name
    }

    /// Returns `true` if this package is meant for the `current` platform.
    pub fn is_platform_match(&self, current: Platform) -> (r: bool)
        ensures
            r == platform_matches(current, self@.platform),
    {
        current.is_match(&self.platform)
    }

    /// The platform this package is for, with no constraint meaning `current`.
    pub fn platform(&self, current: Platform) -> (r: Platform)
        ensures
            r == resolve_platform(current, self@.platform),
    {
        Platform::resolve(current, &self.platform)
    }

    /// The platform constraint as written, if any.
    pub fn platform_constraint(&self) -> (r: Option<Platform>)
        ensures
            r == self@.platform,
    {
        self.platform
    }

    /// The kind of installer this package needs.
    pub fn kind(&self) -> (r: &PackageKind)
        ensures
            r@ == self@.kind,
    {
        &self.kind
    }
}

pub open spec fn package_views(s: Seq<Package>) -> Seq<PackageView> {
    s.map_values(|p: Package| p@)
}

/// The model of a package set's actions.
pub ghost enum ActionsView {
    Packages(Seq<PackageView>),
    Scripts(Map<InstallActionKind, Seq<char>>),
}

/// What a package set does: install a list of packages, or run a script for each action;
/// never both.
#[derive(Debug)]
pub enum PackageSetActions {
    Packages { packages: Vec<Package> },
    Scripts { scripts: CommandMap },
}

impl View for PackageSetActions {
    type V = ActionsView;

    open spec fn view(&self) -> ActionsView {
        match self {
            PackageSetActions::Packages { packages } => ActionsView::Packages(
                package_views(packages@),
            ),
            PackageSetActions::Scripts { scripts } => ActionsView::Scripts(scripts@),
        }
    }
}

pub open spec fn actions_empty(a: ActionsView) -> bool {
    match a {
        ActionsView::Packages(p) => p.len() == 0,
        ActionsView::Scripts(m) => m.len() == 0,
    }
}

fn clone_packages(v: &Vec<Package>) -> (r: Vec<Package>)
    ensures
        r@ == v@,
{
    let mut r: Vec<Package> = Vec::new();
    let mut i: usize = 0;
    while i < v.len()
        invariant
            i <= v@.len(),
            r@ == v@.subrange(0, i as int),
        decreases v@.len() - i,
    {
        r.push(v[i].clone());
        assert(r@ =~= v@.subrange(0, i + 1));
        i += 1;
    }
    assert(v@.subrange(0, i as int) =~= v@);
    r
}

impl Clone for PackageSetActions {
    fn clone(&self) -> (r: Self)
        ensures
            r@ == self@,
    {
        match self {
            PackageSetActions::Packages { packages } => PackageSetActions::Packages {
                packages: clone_packages(packages),
            },
            PackageSetActions::Scripts { scripts } => PackageSetActions::Scripts {
                scripts: scripts.clone(),
            },
        }
    }
}

impl PackageSetActions {
    /// An empty list of packages.
    pub fn default_actions() -> (r: Self)
        ensures
            r@ == ActionsView::Packages(Seq::empty()),
    {
        let packages: Vec<Package> = Vec::new();
        assert(package_views(packages@) =~= Seq::<PackageView>::empty());
        PackageSetActions::Packages { packages }
    }

    /// Package actions for the given packages.
    pub fn from_packages(packages: Vec<Package>) -> (r: Self)
        ensures
            r@ == ActionsView::Packages(package_views(packages@)),
    {
        PackageSetActions::Packages { packages }
    }

    /// Returns `true` if there is no package, or no script.
    pub fn is_empty(&self) -> (r: bool)
        ensures
            r == actions_empty(self@),
    {
        match self {
            PackageSetActions::Packages { packages } => packages.len() == 0,
            PackageSetActions::Scripts { scripts } => scripts.is_empty(),
        }
    }
}

/// The model of a package set.
pub ghost struct PackageSetView {
    pub path: Seq<char>,
    pub name: Seq<char>,
    pub description: Option<Seq<char>>,
    pub platform: Option<Platform>,
    pub optional: bool,
    pub env_vars: Seq<(Seq<char>, Seq<char>)>,
    pub run_before: Option<Seq<char>>,
    pub actions: ActionsView,
    pub env_file: Option<Seq<char>>,
    pub link_files: Seq<(Seq<char>, Seq<char>)>,
    pub run_after: Option<Seq<char>>,
}

/// A named bundle of package or script actions, with variables for its commands, files to
/// link, and scripts to run before and after.
#[derive(Debug)]
pub struct PackageSet {
    path: String,
    name: Name,
    description: Option<String>,
    platform: Option<Platform>,
    optional: bool,
    env_vars: StringMap,
    run_before: Option<String>,
    actions: PackageSetActions,
    env_file: Option<String>,
    link_files: StringMap,
    run_after: Option<String>,
}

impl View for PackageSet {
    type V = PackageSetView;

    closed spec fn view(&self) -> PackageSetView {
        PackageSetView {
            path: self.path@,
            name: self.name@,
            description: opt_text(self.description),
            platform: self.platform,
            optional: self.optional,
            env_vars: self.env_vars.pairs(),
            run_before: opt_text(self.run_before),
            actions: self.actions@,
            env_file: opt_text(self.env_file),
            link_files: self.link_files.pairs(),
            run_after: opt_text(self.run_after),
        }
    }
}

fn clone_opt(o: &Option<String>) -> (r: Option<String>)
    ensures
        r == *o,
{
    match o {
        Some(s) => Some(s.clone()),
        None => None,
    }
}

impl Clone for PackageSet {
    fn clone(&self) -> (r: Self)
        ensures
            r@ == self@,
    {
        PackageSet {
            path: self.path.clone(),
            name: self.name.clone(),
            description: clone_opt(&self.description),
            platform: self.platform,
            optional: self.optional,
            env_vars: self.env_vars.clone(),
            run_before: clone_opt(&self.run_before),
            actions: self.actions.clone(),
            env_file: clone_opt(&self.env_file),
            link_files: self.link_files.clone(),
            run_after: clone_opt(&self.run_after),
        }
    }
}

impl PartialEq for PackageSet {
    fn eq(&self, other: &PackageSet) -> (r: bool)
        ensures
            r == (self@ == other@),
    {
        self.path == other.path && self.name == other.name && crate::installer::opt_eq(
            &self.description,
            &other.description,
        ) && self.platform == other.platform && self.optional == other.optional
            && self.env_vars.same_pairs(&other.env_vars) && crate::installer::opt_eq(
            &self.run_before,
            &other.run_before,
        ) && self.actions == other.actions && crate::installer::opt_eq(
            &self.env_file,
            &other.env_file,
        ) && self.link_files.same_pairs(&other.link_files) && crate::installer::opt_eq(
            &self.run_after,
            &other.run_after,
        )
    }
}

impl vstd::std_specs::cmp::PartialEqSpecImpl for PackageSet {
    open spec fn obeys_eq_spec() -> bool {
        true
    }

    open spec fn eq_spec(&self, other: &PackageSet) -> bool {
        self@ == other@
    }
}

impl PackageSet {
    /// The set's name.
    pub fn name(&self) -> (r: &Name)
        ensures
            r@ == self@.name,
    {
        &self.name
    }

    /// The path of the file the set was read from.
    pub fn path(&self) -> (r: &String)
        ensures
            r@ == self@.path,
    {
        &self.path
    }

    /// The set's description, if any.
    pub fn description(&self) -> (r: &Option<String>)
        ensures
            opt_text(*r) == self@.description,
    {
        &self.description
    }

    /// Returns `true` if this set is meant for the `current` platform.
    pub fn is_platform_match(&self, current: Platform) -> (r: bool)
        ensures
            r == platform_matches(current, self@.platform),
    {
        current.is_match(&self.platform)
    }

    /// The platform this set is for, with no constraint meaning `current`.
    pub fn platform(&self, current: Platform) -> (r: Platform)
        ensures
            r == resolve_platform(current, self@.platform),
    {
        Platform::resolve(current, &self.platform)
    }

    /// The platform constraint as written, if any.
    pub fn platform_constraint(&self) -> (r: Option<Platform>)
        ensures
            r == self@.platform,
    {
        self.platform
    }

    /// Returns `true` if this set is optional.
    pub fn is_optional(&self) -> (r: bool)
        ensures
            r == self@.optional,
    {
        self.optional
    }

    /// The variables this set declares for its commands.
    pub fn env_vars(&self) -> (r: &StringMap)
        ensures
            r.pairs() == self@.env_vars,
    {
        &self.env_vars
    }

    /// Returns `true` if the set has at least one package or script.
    pub fn has_actions(&self) -> (r: bool)
        ensures
            r == !actions_empty(self@.actions),
    {
        !self.actions.is_empty()
    }

    /// The set's actions.
    pub fn actions(&self) -> (r: &PackageSetActions)
        ensures
            r@ == self@.actions,
    {
        &self.actions
    }

    /// The packages, when the set's actions are packages.
    pub fn packages(&self) -> (r: Option<&Vec<Package>>)
        ensures
            match self@.actions {
                ActionsView::Packages(p) => r is Some && package_views(r->Some_0@) == p,
                ActionsView::Scripts(_) => r is None,
            },
    {
        match &self.actions {
            PackageSetActions::Packages { packages } => Some(packages),
            PackageSetActions::Scripts { .. } => None,
        }
    }

    /// The scripts, when the set's actions are scripts.
    pub fn scripts(&self) -> (r: Option<&CommandMap>)
        ensures
            match self@.actions {
                ActionsView::Packages(_) => r is None,
                ActionsView::Scripts(m) => r is Some && r->Some_0@ == m,
            },
    {
        match &self.actions {
            PackageSetActions::Packages { .. } => None,
            PackageSetActions::Scripts { scripts } => Some(scripts),
        }
    }

    /// The name of the environment file to link, if any.
    pub fn env_file(&self) -> (r: &Option<String>)
        ensures
            opt_text(*r) == self@.env_file,
    {
        &self.env_file
    }

    /// The environment file as a path, if any.
    pub fn env_file_path(&self) -> (r: Option<String>)
        ensures
            opt_text(r) == self@.env_file,
    {
        clone_opt(&self.env_file)
    }

    /// The files to link: repository-relative source to target.
    pub fn link_files(&self) -> (r: &StringMap)
        ensures
            r.pairs() == self@.link_files,
    {
        &self.link_files
    }

    /// The files to link, with each source joined onto the set's path.
    pub fn link_file_paths(&self) -> (r: Vec<(String, String)>)
        ensures
            r@.len() == self@.link_files.len(),
            forall|i: int|
                0 <= i < r@.len() ==> (#[trigger] r@[i]).0@ == crate::paths::joined(
                    self@.path,
                    self@.link_files[i].0,
                ) && r@[i].1@ == self@.link_files[i].1,
    {
        let n = self.link_files.len();
        let mut r: Vec<(String, String)> = Vec::new();
        let mut i: usize = 0;
        while i < n
            invariant
                n == self@.link_files.len(),
                i <= n,
                r@.len() == i,
                forall|j: int|
                    0 <= j < i ==> (#[trigger] r@[j]).0@ == crate::paths::joined(
                        self@.path,
                        self@.link_files[j].0,
                    ) && r@[j].1@ == self@.link_files[j].1,
            decreases n - i,
        {
            let src = crate::paths::path_join(self.path.as_str(), self.link_files.key_at(i).as_str());
            r.push((src, self.link_files.value_at(i).clone()));
            i += 1;
        }
        r
    }

    /// The script to run before any other action, if any.
    pub fn run_before(&self) -> (r: &Option<String>)
        ensures
            opt_text(*r) == self@.run_before,
    {
        &self.run_before
    }

    /// The script to run after all other actions, if any.
    pub fn run_after(&self) -> (r: &Option<String>)
        ensures
            opt_text(*r) == self@.run_after,
    {
        &self.run_after
    }
}

/// Builds `Package` values step by step.
#[derive(Debug)]
pub struct PackageBuilder {
    inner: Package,
}

impl View for PackageBuilder {
    type V = PackageView;

    closed spec fn view(&self) -> PackageView {
        self.inner@
    }
}

impl PackageBuilder {
    /// A builder for a package named `name`, for any platform, of the default kind.
    pub fn named(name: Name) -> (r: Self)
        ensures
            r@ == (PackageView { name: name@, platform: None, kind: KindView::Default }),
    {
        PackageBuilder { inner: Package { name, platform: None, kind: PackageKind::Default } }
    }

    /// The package built so far.
    pub fn build(&self) -> (r: Package)
        ensures
            r@ == self@,
    {
        self.inner.clone()
    }

    /// Restricts the package to `platform`.
    pub fn for_platform(&mut self, platform: Platform) -> (r: &mut Self)
        ensures
            r@ == (PackageView { platform: Some(platform), ..old(self)@ }),
            *final(self) == *final(r),
    {
        self.inner.platform = Some(platform);
        self
    }

    /// Restricts the package to macOS.
    pub fn for_macos_only(&mut self) -> (r: &mut Self)
        ensures
            r@ == (PackageView { platform: Some(Platform::Macos), ..old(self)@ }),
            *final(self) == *final(r),
    {
        self.for_platform(Platform::Macos)
    }

    /// Restricts the package to Linux.
    pub fn for_linux_only(&mut self) -> (r: &mut Self)
        ensures
            r@ == (PackageView { platform: Some(Platform::Linux), ..old(self)@ }),
            *final(self) == *final(r),
    {
        self.for_platform(Platform::Linux)
    }

    /// Removes any platform restriction.
    pub fn for_any_platform(&mut self) -> (r: &mut Self)
        ensures
            r@ == (PackageView { platform: None, ..old(self)@ }),
            *final(self) == *final(r),
    {
        self.inner.platform = None;
        self
    }

    /// Sets the package's kind.
    pub fn of_kind(&mut self, kind: PackageKind) -> (r: &mut Self)
        ensures
            r@ == (PackageView { kind: kind@, ..old(self)@ }),
            *final(self) == *final(r),
    {
        self.inner.kind = kind;
        self
    }

    /// The package uses the platform's default installer.
    pub fn using_default_installer(&mut self) -> (r: &mut Self)
        ensures
            r@ == (PackageView { kind: KindView::Default, ..old(self)@ }),
            *final(self) == *final(r),
    {
        self.of_kind(PackageKind::Default)
    }

    /// The package uses the platform's application installer.
    pub fn using_application_installer(&mut self) -> (r: &mut Self)
        ensures
            r@ == (PackageView { kind: KindView::Application, ..old(self)@ }),
            *final(self) == *final(r),
    {
        self.of_kind(PackageKind::Application)
    }

    /// The package uses the installer of the language `language`.
    pub fn using_language_installer(&mut self, language: &Name) -> (r: &mut Self)
        ensures
            r@ == (PackageView { kind: KindView::Language(language@), ..old(self)@ }),
            *final(self) == *final(r),
    {
        self.of_kind(PackageKind::Language(language.clone()))
    }
}

/// Builds `PackageSet` values step by step.
#[derive(Debug)]
pub struct PackageSetBuilder {
    inner: PackageSet,
}

impl View for PackageSetBuilder {
    type V = PackageSetView;

    closed spec fn view(&self) -> PackageSetView {
        self.inner@
    }
}

impl PackageSetBuilder {
    /// A builder for a set named `name`: no path, description, platform or variables, not
    /// optional, an empty package list, and nothing to link or run.
    pub fn named(name: Name) -> (r: Self)
        ensures
            r@ == (PackageSetView {
                path: Seq::empty(),
                name: name@,
                description: None,
                platform: None,
                optional: false,
                env_vars: Seq::empty(),
                run_before: None,
                actions: ActionsView::Packages(Seq::empty()),
                env_file: None,
                link_files: Seq::empty(),
                run_after: None,
            }),
    {
        PackageSetBuilder {
            inner: PackageSet {
                path: String::new(),
                name,
                description: None,
                platform: None,
                optional: false,
                env_vars: StringMap::new(),
                run_before: None,
                actions: PackageSetActions::default_actions(),
                env_file: None,
                link_files: StringMap::new(),
                run_after: None,
            },
        }
    }

    /// The package set built so far.
    pub fn build(&self) -> (r: PackageSet)
        ensures
            r@ == self@,
    {
        self.inner.clone()
    }

    /// Sets the path the set was read from.
    pub fn path(&mut self, path: String) -> (r: &mut Self)
        ensures
            r@ == (PackageSetView { path: path@, ..old(self)@ }),
            *final(self) == *final(r),
    {
        self.inner.path = path;
        self
    }

    /// Sets the description.
    pub fn description(&mut self, description: &str) -> (r: &mut Self)
        ensures
            r@ == (PackageSetView { description: Some(description@), ..old(self)@ }),
            *final(self) == *final(r),
    {
        self.inner.description = Some(String::from_str(description));
        self
    }

    /// Restricts the set to `platform`.
    pub fn for_platform(&mut self, platform: Platform) -> (r: &mut Self)
        ensures
            r@ == (PackageSetView { platform: Some(platform), ..old(self)@ }),
            *final(self) == *final(r),
    {
        self.inner.platform = Some(platform);
        self
    }

    /// Restricts the set to macOS.
    pub fn for_macos_only(&mut self) -> (r: &mut Self)
        ensures
            r@ == (PackageSetView { platform: Some(Platform::Macos), ..old(self)@ }),
            *final(self) == *final(r),
    {
        self.for_platform(Platform::Macos)
    }

    /// Restricts the set to Linux.
    pub fn for_linux_only(&mut self) -> (r: &mut Self)
        ensures
            r@ == (PackageSetView { platform: Some(Platform::Linux), ..old(self)@ }),
            *final(self) == *final(r),
    {
        self.for_platform(Platform::Linux)
    }

    /// Removes any platform restriction.
    pub fn for_any_platform(&mut self) -> (r: &mut Self)
        ensures
            r@ == (PackageSetView { platform: None, ..old(self)@ }),
            *final(self) == *final(r),
    {
        self.inner.platform = None;
        self
    }

    /// Marks the set optional.
    pub fn optional(&mut self) -> (r: &mut Self)
        ensures
            r@ == (PackageSetView { optional: true, ..old(self)@ }),
            *final(self) == *final(r),
    {
        self.inner.optional = true;
        self
    }

    /// Marks the set required, the default.
    pub fn required(&mut self) -> (r: &mut Self)
        ensures
            r@ == (PackageSetView { optional: false, ..old(self)@ }),
            *final(self) == *final(r),
    {
        self.inner.optional = false;
        self
    }

    /// Replaces the set's variables.
    pub fn env_vars(&mut self, env_vars: StringMap) -> (r: &mut Self)
        ensures
            r@ == (PackageSetView { env_vars: env_vars.pairs(), ..old(self)@ }),
            *final(self) == *final(r),
    {
        self.inner.env_vars = env_vars;
        self
    }

    /// Adds or replaces one variable.
    pub fn env_var(&mut self, key: &str, value: &str) -> (r: &mut Self)
        ensures
            crate::strmap::pairs_to_map(r@.env_vars) == crate::strmap::pairs_to_map(
                old(self)@.env_vars,
            ).insert(key@, value@),
            r@ == (PackageSetView { env_vars: r@.env_vars, ..old(self)@ }),
            *final(self) == *final(r),
    {
        self.inner.env_vars.insert(String::from_str(key), String::from_str(value));
        self
    }

    /// Sets the script to run before all actions.
    pub fn run_before(&mut self, script_string: &str) -> (r: &mut Self)
        ensures
            r@ == (PackageSetView { run_before: Some(script_string@), ..old(self)@ }),
            *final(self) == *final(r),
    {
        self.inner.run_before = Some(String::from_str(script_string));
        self
    }

    /// Replaces the set's actions.
    pub fn actions(&mut self, actions: PackageSetActions) -> (r: &mut Self)
        ensures
            r@ == (PackageSetView { actions: actions@, ..old(self)@ }),
            *final(self) == *final(r),
    {
        self.inner.actions = actions;
        self
    }

    /// The set's actions become an empty package list.
    pub fn with_package_actions(&mut self) -> (r: &mut Self)
        ensures
            r@ == (PackageSetView { actions: ActionsView::Packages(Seq::empty()), ..old(self)@ }),
            *final(self) == *final(r),
    {
        self.actions(PackageSetActions::default_actions())
    }

    /// The set's actions become the given package list.
    pub fn package_actions(&mut self, packages: &[Package]) -> (r: &mut Self)
        ensures
            r@ == (PackageSetView {
                actions: ActionsView::Packages(package_views(packages@)),
                ..old(self)@
            }),
            *final(self) == *final(r),
    {
        let mut v: Vec<Package> = Vec::new();
        let mut i: usize = 0;
        while i < packages.len()
            invariant
                i <= packages@.len(),
                v@ == packages@.subrange(0, i as int),
            decreases packages@.len() - i,
        {
            v.push(packages[i].clone());
            assert(v@ =~= packages@.subrange(0, i + 1));
            i += 1;
        }
        assert(packages@.subrange(0, i as int) =~= packages@);
        self.actions(PackageSetActions::Packages { packages: v })
    }

    /// Appends a package; fails with `InvalidBuilderState`, changing nothing, when the
    /// set's actions are scripts.
    pub fn add_package_action(&mut self, package: Package) -> (r: Result<&mut Self, ErrorKind>)
        ensures
            match old(self)@.actions {
                ActionsView::Packages(p) => r is Ok && r->Ok_0@ == (PackageSetView {
                    actions: ActionsView::Packages(p.push(package@)),
                    ..old(self)@
                }) && *final(self) == *final(r->Ok_0),
                ActionsView::Scripts(_) => r is Err && r->Err_0 == ErrorKind::InvalidBuilderState
                    && *final(self) == *old(self),
            },
    {
        let is_packages = match &self.inner.actions {
            PackageSetActions::Packages { .. } => true,
            PackageSetActions::Scripts { .. } => false,
        };
        if is_packages {
            let mut actions = PackageSetActions::default_actions();
            std::mem::swap(&mut actions, &mut self.inner.actions);
            match actions {
                PackageSetActions::Packages { mut packages } => {
                    let ghost before = packages@;
                    packages.push(package);
                    assert(package_views(packages@) =~= package_views(before).push(package@));
                    self.inner.actions = PackageSetActions::Packages { packages };
                },
                PackageSetActions::Scripts { scripts } => {
                    self.inner.actions = PackageSetActions::Scripts { scripts };
                },
            }
            Ok(self)
        } else {
            Err(ErrorKind::InvalidBuilderState)
        }
    }

    /// The set's actions become an empty script map.
    pub fn with_script_actions(&mut self) -> (r: &mut Self)
        ensures
            r@ == (PackageSetView { actions: ActionsView::Scripts(Map::empty()), ..old(self)@ }),
            *final(self) == *final(r),
    {
        self.actions(PackageSetActions::Scripts { scripts: CommandMap::new() })
    }

    /// The set's actions become the scripts of the list; a later pair for an action wins.
    pub fn script_actions_list(&mut self, scripts: &[(InstallActionKind, String)]) -> (r: &mut Self)
        ensures
            r@ == (PackageSetView {
                actions: ActionsView::Scripts(
                    crate::strmap::pairs_to_map(
                        scripts@.map_values(|p: (InstallActionKind, String)| (p.0, p.1@)),
                    ),
                ),
                ..old(self)@
            }),
            *final(self) == *final(r),
    {
        self.script_actions(CommandMap::from_list(scripts))
    }

    /// The set's actions become the given scripts.
    pub fn script_actions(&mut self, scripts: CommandMap) -> (r: &mut Self)
        ensures
            r@ == (PackageSetView { actions: ActionsView::Scripts(scripts@), ..old(self)@ }),
            *final(self) == *final(r),
    {
        self.actions(PackageSetActions::Scripts { scripts })
    }

    /// Sets the script for one action; fails with `InvalidBuilderState`, changing nothing,
    /// when the set's actions are packages.
    pub fn add_script_action(&mut self, kind: InstallActionKind, script_string: &str) -> (r: Result<
        &mut Self,
        ErrorKind,
    >)
        ensures
            match old(self)@.actions {
                ActionsView::Scripts(m) => r is Ok && r->Ok_0@ == (PackageSetView {
                    actions: ActionsView::Scripts(m.insert(kind, script_string@)),
                    ..old(self)@
                }) && *final(self) == *final(r->Ok_0),
                ActionsView::Packages(_) => r is Err && r->Err_0
                    == ErrorKind::InvalidBuilderState && *final(self) == *old(self),
            },
    {
        let is_scripts = match &self.inner.actions {
            PackageSetActions::Packages { .. } => false,
            PackageSetActions::Scripts { .. } => true,
        };
        if is_scripts {
            let mut actions = PackageSetActions::default_actions();
            std::mem::swap(&mut actions, &mut self.inner.actions);
            match actions {
                PackageSetActions::Packages { packages } => {
                    self.inner.actions = PackageSetActions::Packages { packages };
                },
                PackageSetActions::Scripts { mut scripts } => {
                    scripts.insert(kind, String::from_str(script_string));
                    self.inner.actions = PackageSetActions::Scripts { scripts };
                },
            }
            Ok(self)
        } else {
            Err(ErrorKind::InvalidBuilderState)
        }
    }

    /// Sets the install script; see `add_script_action`.
    pub fn add_install_script_action(&mut self, script_string: &str) -> (r: Result<
        &mut Self,
        ErrorKind,
    >)
        ensures
            match old(self)@.actions {
                ActionsView::Scripts(m) => r is Ok && r->Ok_0@ == (PackageSetView {
                    actions: ActionsView::Scripts(m.insert(InstallActionKind::Install, script_string@)),
                    ..old(self)@
                }) && *final(self) == *final(r->Ok_0),
                ActionsView::Packages(_) => r is Err && r->Err_0
                    == ErrorKind::InvalidBuilderState && *final(self) == *old(self),
            },
    {
        self.add_script_action(InstallActionKind::Install, script_string)
    }

    /// Sets the update script; see `add_script_action`.
    pub fn add_update_script_action(&mut self, script_string: &str) -> (r: Result<
        &mut Self,
        ErrorKind,
    >)
        ensures
            match old(self)@.actions {
                ActionsView::Scripts(m) => r is Ok && r->Ok_0@ == (PackageSetView {
                    actions: ActionsView::Scripts(m.insert(InstallActionKind::Update, script_string@)),
                    ..old(self)@
                }) && *final(self) == *final(r->Ok_0),
                ActionsView::Packages(_) => r is Err && r->Err_0
                    == ErrorKind::InvalidBuilderState && *final(self) == *old(self),
            },
    {
        self.add_script_action(InstallActionKind::Update, script_string)
    }

    /// Sets the uninstall script; see `add_script_action`.
    pub fn add_uninstall_script_action(&mut self, script_string: &str) -> (r: Result<
        &mut Self,
        ErrorKind,
    >)
        ensures
            match old(self)@.actions {
                ActionsView::Scripts(m) => r is Ok && r->Ok_0@ == (PackageSetView {
                    actions: ActionsView::Scripts(
                        m.insert(InstallActionKind::Uninstall, script_string@),
                    ),
                    ..old(self)@
                }) && *final(self) == *final(r->Ok_0),
                ActionsView::Packages(_) => r is Err && r->Err_0
                    == ErrorKind::InvalidBuilderState && *final(self) == *old(self),
            },
    {
        self.add_script_action(InstallActionKind::Uninstall, script_string)
    }

    /// Sets the link-files script; see `add_script_action`.
    pub fn add_link_files_script_action(&mut self, script_string: &str) -> (r: Result<
        &mut Self,
        ErrorKind,
    >)
        ensures
            match old(self)@.actions {
                ActionsView::Scripts(m) => r is Ok && r->Ok_0@ == (PackageSetView {
                    actions: ActionsView::Scripts(
                        m.insert(InstallActionKind::LinkFiles, script_string@),
                    ),
                    ..old(self)@
                }) && *final(self) == *final(r->Ok_0),
                ActionsView::Packages(_) => r is Err && r->Err_0
                    == ErrorKind::InvalidBuilderState && *final(self) == *old(self),
            },
    {
        self.add_script_action(InstallActionKind::LinkFiles, script_string)
    }

    /// Sets the environment file to link.
    pub fn env_file(&mut self, file_name: &str) -> (r: &mut Self)
        ensures
            r@ == (PackageSetView { env_file: Some(file_name@), ..old(self)@ }),
            *final(self) == *final(r),
    {
        self.inner.env_file = Some(String::from_str(file_name));
        self
    }

    /// Replaces the files to link.
    pub fn link_files(&mut self, link_files: StringMap) -> (r: &mut Self)
        ensures
            r@ == (PackageSetView { link_files: link_files.pairs(), ..old(self)@ }),
            *final(self) == *final(r),
    {
        self.inner.link_files = link_files;
        self
    }

    /// Adds or replaces one file to link.
    pub fn add_link_file(&mut self, repo_file_name: &str, local_fs_name: &str) -> (r: &mut Self)
        ensures
            crate::strmap::pairs_to_map(r@.link_files) == crate::strmap::pairs_to_map(
                old(self)@.link_files,
            ).insert(repo_file_name@, local_fs_name@),
            r@ == (PackageSetView { link_files: r@.link_files, ..old(self)@ }),
            *final(self) == *final(r),
    {
        self.inner.link_files.insert(String::from_str(repo_file_name), String::from_str(local_fs_name));
        self
    }

    /// Sets the script to run after all actions.
    pub fn run_after(&mut self, script_string: &str) -> (r: &mut Self)
        ensures
            r@ == (PackageSetView { run_after: Some(script_string@), ..old(self)@ }),
            *final(self) == *final(r),
    {
        self.inner.run_after = Some(String::from_str(script_string));
        self
    }
}

pub open spec fn set_views(s: Seq<PackageSet>) -> Seq<PackageSetView> {
    s.map_values(|p: PackageSet| p@)
}

/// The model of a group of package sets.
pub ghost struct GroupView {
    pub path: Seq<char>,
    pub name: Seq<char>,
    pub sets: Seq<PackageSetView>,
}

/// A directory of the repository holding package sets; its name is the directory's name.
#[derive(Debug)]
pub struct PackageSetGroup {
    path: String,
    name: Name,
    package_sets: Vec<PackageSet>,
}

impl View for PackageSetGroup {
    type V = GroupView;

    closed spec fn view(&self) -> GroupView {
        GroupView { path: self.path@, name: self.name@, sets: set_views(self.package_sets@) }
    }
}

fn clone_sets(v: &Vec<PackageSet>) -> (r: Vec<PackageSet>)
    ensures
        set_views(r@) == set_views(v@),
{
    let mut r: Vec<PackageSet> = Vec::new();
    let mut i: usize = 0;
    while i < v.len()
        invariant
            i <= v@.len(),
            set_views(r@) == set_views(v@.subrange(0, i as int)),
        decreases v@.len() - i,
    {
        let ghost before = r@;
        let c = v[i].clone();
        let ghost cv = c@;
        r.push(c);
        assert(set_views(r@) =~= set_views(before).push(cv));
        assert(v@.subrange(0, i + 1) =~= v@.subrange(0, i as int).push(v@[i as int]));
        assert(set_views(v@.subrange(0, i + 1)) =~= set_views(v@.subrange(0, i as int)).push(
            v@[i as int]@,
        ));
        i += 1;
    }
    assert(v@.subrange(0, i as int) =~= v@);
    r
}

impl Clone for PackageSetGroup {
    fn clone(&self) -> (r: Self)
        ensures
            r@ == self@,
    {
        PackageSetGroup {
            path: self.path.clone(),
            name: self.name.clone(),
            package_sets: clone_sets(&self.package_sets),
        }
    }
}

/// The length of the run of ASCII digits at the start of `s`.
pub open spec fn digit_run(s: Seq<char>) -> nat
    decreases s.len(),
{
    if s.len() > 0 && '0' <= s[0] && s[0] <= '9' {
        1 + digit_run(s.drop_first())
    } else {
        0
    }
}

/// `s` without a leading ordering prefix: one or more digits followed by `-`.
pub open spec fn strip_order_prefix(s: Seq<char>) -> Seq<char> {
    let n = digit_run(s);
    if n >= 1 && s.len() > n && s[n as int] == '-' {
        s.subrange(n + 1int, s.len() as int)
    } else {
        s
    }
}

/// `s` with every `-` replaced by a space.
pub open spec fn dashes_to_spaces(s: Seq<char>) -> Seq<char> {
    s.map_values(|c: char| if c == '-' { ' ' } else { c })
}

/// The name shown for a group: its ordering prefix removed, and dashes turned to spaces.
pub open spec fn display_name_of(name: Seq<char>) -> Seq<char> {
    dashes_to_spaces(strip_order_prefix(name))
}

proof fn lemma_digit_run(s: Seq<char>, j: int)
    requires
        0 <= j <= s.len(),
        forall|k: int| 0 <= k < j ==> '0' <= #[trigger] s[k] && s[k] <= '9',
        j == s.len() || !('0' <= s[j] && s[j] <= '9'),
    ensures
        digit_run(s) == j,
    decreases j,
{
    if j > 0 {
        lemma_digit_run(s.drop_first(), j - 1);
    }
}

impl PackageSetGroup {
    /// The group's name: its directory's name.
    pub fn name(&self) -> (r: &Name)
        ensures
            r@ == self@.name,
    {
        &self.name
    }

    /// The group's name without its numeric ordering prefix, with `-` shown as a space.
    pub fn display_name(&self) -> (r: String)
        ensures
            r@ == display_name_of(self@.name),
    {
        let s = self.name.as_str();
        let n = s.unicode_len();
        let mut j: usize = 0;
        while j < n && '0' <= s.get_char(j) && s.get_char(j) <= '9'
            invariant
                n == s@.len(),
                j <= n,
                forall|k: int| 0 <= k < j ==> '0' <= #[trigger] s@[k] && s@[k] <= '9',
            decreases n - j,
        {
            j += 1;
        }
        proof {
            lemma_digit_run(s@, j as int);
        }
        let start: usize = if j >= 1 && j < n && s.get_char(j) == '-' {
            j + 1
        } else {
            0
        };
        let ghost stripped = strip_order_prefix(s@);
        assert(stripped =~= s@.subrange(start as int, n as int));
        let mut out = String::new();
        let mut i: usize = start;
        while i < n
            invariant
                n == s@.len(),
                start <= i <= n,
                stripped == s@.subrange(start as int, n as int),
                out@ == dashes_to_spaces(s@.subrange(start as int, i as int)),
            decreases n - i,
        {
            let c = s.get_char(i);
            proof {
                reveal_strlit(" ");
                assert(s@.subrange(start as int, i + 1) =~= s@.subrange(start as int, i as int).push(
                    c,
                ));
            }
            if c == '-' {
                out.append(" ");
            } else {
                out.append(s.substring_char(i, i + 1));
            }
            assert(out@ =~= dashes_to_spaces(s@.subrange(start as int, i + 1)));
            i += 1;
        }
        out
    }

    /// The group's directory.
    pub fn path(&self) -> (r: &String)
        ensures
            r@ == self@.path,
    {
        &self.path
    }

    /// The group's package sets, in order.
    pub fn package_sets(&self) -> (r: &Vec<PackageSet>)
        ensures
            set_views(r@) == self@.sets,
    {
        &self.package_sets
    }

    /// Returns `true` if the group has a package set named `name`.
    pub fn has_package_set(&self, name: &Name) -> (r: bool)
        ensures
            r == exists|i: int| 0 <= i < self@.sets.len() && (#[trigger] self@.sets[i]).name == name@,
    {
        self.package_set(name).is_some()
    }

    /// The first package set named `name`, if any.
    pub fn package_set(&self, name: &Name) -> (r: Option<&PackageSet>)
        ensures
            match r {
                Some(ps) => exists|i: int|
                    0 <= i < self@.sets.len() && ps@ == (#[trigger] self@.sets[i]) && ps@.name
                        == name@ && forall|j: int|
                        0 <= j < i ==> (#[trigger] self@.sets[j]).name != name@,
                None => forall|i: int|
                    0 <= i < self@.sets.len() ==> (#[trigger] self@.sets[i]).name != name@,
            },
    {
        let mut i: usize = 0;
        while i < self.package_sets.len()
            invariant
                i <= self.package_sets@.len(),
                self@.sets == set_views(self.package_sets@),
                forall|j: int| 0 <= j < i ==> (#[trigger] self@.sets[j]).name != name@,
            decreases self.package_sets@.len() - i,
        {
            if *self.package_sets[i].name() == *name {
                assert(self@.sets[i as int] == self.package_sets@[i as int]@);
                return Some(&self.package_sets[i]);
            }
            i += 1;
        }
        None
    }
}

/// The position before the first name that sorts after `x`.
pub open spec fn sorted_position(names: Seq<Seq<char>>, x: Seq<char>) -> int
    decreases names.len(),
{
    if names.len() == 0 {
        0
    } else if text_le(names[0], x) {
        1 + sorted_position(names.drop_first(), x)
    } else {
        0
    }
}

proof fn lemma_sorted_position(names: Seq<Seq<char>>, x: Seq<char>, j: int)
    requires
        0 <= j <= names.len(),
        forall|k: int| 0 <= k < j ==> text_le(#[trigger] names[k], x),
        j == names.len() || !text_le(names[j], x),
    ensures
        sorted_position(names, x) == j,
    decreases j,
{
    if j > 0 {
        lemma_sorted_position(names.drop_first(), x, j - 1);
    }
}

/// The names are in `text_le` order.
pub open spec fn names_sorted(names: Seq<Seq<char>>) -> bool {
    forall|i: int, j: int| 0 <= i < j < names.len() ==> text_le(#[trigger] names[i], #[trigger] names[j])
}

/// Inserting a name at its sorted position keeps a sorted list sorted.
pub proof fn lemma_sorted_insert(names: Seq<Seq<char>>, x: Seq<char>, j: int)
    requires
        names_sorted(names),
        0 <= j <= names.len(),
        forall|k: int| 0 <= k < j ==> text_le(#[trigger] names[k], x),
        j == names.len() || !text_le(names[j], x),
    ensures
        names_sorted(names.insert(j, x)),
{
    let t = names.insert(j, x);
    if j < names.len() {
        crate::strmap::lemma_text_le_total(names[j], x);
    }
    assert forall|a: int, b: int| 0 <= a < b < t.len() implies text_le(#[trigger] t[a], #[trigger] t[b]) by {
        if b < j {
            assert(t[a] == names[a] && t[b] == names[b]);
        } else if b == j {
            assert(t[a] == names[a]);
        } else if a == j {
            assert(t[b] == names[b - 1]);
            if b - 1 > j {
                crate::strmap::lemma_text_le_trans(x, names[j], names[b - 1]);
            }
        } else if a < j {
            assert(t[a] == names[a] && t[b] == names[b - 1]);
        } else {
            assert(t[a] == names[a - 1] && t[b] == names[b - 1]);
        }
    }
}

/// Builds `PackageSetGroup` values.
#[derive(Debug)]
pub struct PackageSetGroupBuilder {
    inner: PackageSetGroup,
}

impl View for PackageSetGroupBuilder {
    type V = GroupView;

    closed spec fn view(&self) -> GroupView {
        self.inner@
    }
}

impl PackageSetGroupBuilder {
    /// A builder for the group in directory `path`, named after that directory; fails with
    /// `InvalidNameString` when the directory's name is not a valid name.
    pub fn new_in(path: String) -> (r: Result<Self, ErrorKind>)
        ensures
            r is Ok <==> (crate::paths::file_name_of(path@) is Some && crate::name::name_valid(
                crate::paths::file_name_of(path@)->Some_0,
            )),
            r is Ok ==> r->Ok_0@ == (GroupView {
                path: path@,
                name: crate::paths::file_name_of(path@)->Some_0,
                sets: Seq::empty(),
            }),
    {
        match crate::paths::path_file_name(path.as_str()) {
            None => Err(ErrorKind::InvalidNameString(path)),
            Some(dir) => match Name::from_str(dir.as_str()) {
                Ok(name) => {
                    let package_sets: Vec<PackageSet> = Vec::new();
                    assert(set_views(package_sets@) =~= Seq::<PackageSetView>::empty());
                    Ok(PackageSetGroupBuilder { inner: PackageSetGroup { path, name, package_sets } })
                },
                Err(e) => Err(e),
            },
        }
    }

    /// The group built so far.
    pub fn build(&self) -> (r: PackageSetGroup)
        ensures
            r@ == self@,
    {
        self.inner.clone()
    }

    /// Replaces the group's package sets.
    pub fn package_sets(&mut self, package_sets: &[PackageSet])
        ensures
            final(self)@ == (GroupView { sets: set_views(package_sets@), ..old(self)@ }),
    {
        let mut v: Vec<PackageSet> = Vec::new();
        let mut i: usize = 0;
        while i < package_sets.len()
            invariant
                i <= package_sets@.len(),
                set_views(v@) == set_views(package_sets@.subrange(0, i as int)),
            decreases package_sets@.len() - i,
        {
            let ghost before = v@;
            let c = package_sets[i].clone();
            let ghost cv = c@;
            v.push(c);
            assert(set_views(v@) =~= set_views(before).push(cv));
            assert(package_sets@.subrange(0, i + 1) =~= package_sets@.subrange(0, i as int).push(
                package_sets@[i as int],
            ));
            assert(set_views(package_sets@.subrange(0, i + 1)) =~= set_views(
                package_sets@.subrange(0, i as int),
            ).push(package_sets@[i as int]@));
            i += 1;
        }
        assert(package_sets@.subrange(0, i as int) =~= package_sets@);
        self.inner.package_sets = v;
    }

    /// Inserts a package set before the first set whose name sorts after its own, so that a
    /// group built this way keeps its sets in name order.
    pub fn insert_package_set_sorted(&mut self, package_set: PackageSet)
        ensures
            ({
                let j = sorted_position(
                    old(self)@.sets.map_values(|v: PackageSetView| v.name),
                    package_set@.name,
                );
                final(self)@ == (GroupView {
                    sets: old(self)@.sets.insert(j, package_set@),
                    ..old(self)@
                })
            }),
            names_sorted(old(self)@.sets.map_values(|v: PackageSetView| v.name)) ==> names_sorted(
                final(self)@.sets.map_values(|v: PackageSetView| v.name),
            ),
    {
        let ghost names = self@.sets.map_values(|v: PackageSetView| v.name);
        let mut j: usize = 0;
        let n = self.inner.package_sets.len();
        while j < n && crate::strmap::text_le_exec(
            self.inner.package_sets[j].name().as_str(),
            package_set.name().as_str(),
        )
            invariant
                n == self.inner.package_sets@.len(),
                j <= n,
                names == set_views(self.inner.package_sets@).map_values(
                    |v: PackageSetView| v.name,
                ),
                forall|k: int| 0 <= k < j ==> text_le(#[trigger] names[k], package_set@.name),
            decreases n - j,
        {
            j += 1;
        }
        proof {
            lemma_sorted_position(names, package_set@.name, j as int);
        }
        let ghost before = self.inner.package_sets@;
        self.inner.package_sets.insert(j, package_set);
        assert(set_views(self.inner.package_sets@) =~= set_views(before).insert(
            j as int,
            package_set@,
        ));
        proof {
            if names_sorted(names) {
                lemma_sorted_insert(names, package_set@.name, j as int);
                assert(self@.sets.map_values(|v: PackageSetView| v.name) =~= names.insert(
                    j as int,
                    package_set@.name,
                ));
            }
        }
    }

    /// Appends a package set to the group.
    pub fn add_package_set(&mut self, package_set: PackageSet)
        ensures
            final(self)@ == (GroupView { sets: old(self)@.sets.push(package_set@), ..old(self)@ }),
    {
        let ghost before = self.inner.package_sets@;
        self.inner.package_sets.push(package_set);
        assert(set_views(self.inner.package_sets@) =~= set_views(before).push(package_set@));
    }
}

pub open spec fn group_views(s: Seq<PackageSetGroup>) -> Seq<GroupView> {
    s.map_values(|g: PackageSetGroup| g@)
}

/// The model of a repository.
pub ghost struct RepositoryView {
    pub path: Seq<char>,
    pub groups: Seq<GroupView>,
}

/// The root of all groups.
#[derive(Debug)]
pub struct PackageRepository {
    path: String,
    package_set_groups: Vec<PackageSetGroup>,
}

impl View for PackageRepository {
    type V = RepositoryView;

    closed spec fn view(&self) -> RepositoryView {
        RepositoryView { path: self.path@, groups: group_views(self.package_set_groups@) }
    }
}

/// Directory names in the repository root that never hold a group.
pub open spec fn is_reserved_name(s: Seq<char>) -> bool {
    s == ".git"@ || s == ".config"@ || s == ".local"@
}

impl PackageRepository {
    /// A repository at `path` with the given groups, in the order given.
    pub fn new(path: String, groups: Vec<PackageSetGroup>) -> (r: Self)
        ensures
            r@ == (RepositoryView { path: path@, groups: group_views(groups@) }),
    {
        PackageRepository { path, package_set_groups: groups }
    }

    /// Returns `true` if a directory of this name in the repository root is reserved for
    /// version control or the repository's own configuration, and so is not a group.
    pub fn is_reserved_dir(name: &str) -> (r: bool)
        ensures
            r == is_reserved_name(name@),
    {
        proof {
            reveal_strlit(".git");
            reveal_strlit(".config");
            reveal_strlit(".local");
        }
        crate::strmap::text_eq(name, ".git") || crate::strmap::text_eq(name, ".config")
            || crate::strmap::text_eq(name, ".local")
    }

    /// The configuration directory inside the repository rooted at `root`.
    pub fn default_config_path(root: &str) -> (r: String)
        ensures
            r@ == crate::paths::joined(root@, ".config"@),
    {
        crate::paths::path_join(root, ".config")
    }

    /// The local content directory inside the repository rooted at `root`.
    pub fn default_local_path(root: &str) -> (r: String)
        ensures
            r@ == crate::paths::joined(root@, ".local"@),
    {
        crate::paths::path_join(root, ".local")
    }

    /// Inserts a group before the first group whose name sorts after its own, so that a
    /// repository built this way keeps its groups in name order.
    pub fn insert_group_sorted(&mut self, group: PackageSetGroup)
        ensures
            ({
                let j = sorted_position(
                    old(self)@.groups.map_values(|v: GroupView| v.name),
                    group@.name,
                );
                final(self)@ == (RepositoryView {
                    groups: old(self)@.groups.insert(j, group@),
                    ..old(self)@
                })
            }),
            names_sorted(old(self)@.groups.map_values(|v: GroupView| v.name)) ==> names_sorted(
                final(self)@.groups.map_values(|v: GroupView| v.name),
            ),
    {
        let ghost names = self@.groups.map_values(|v: GroupView| v.name);
        let mut j: usize = 0;
        let n = self.package_set_groups.len();
        while j < n && crate::strmap::text_le_exec(
            self.package_set_groups[j].name().as_str(),
            group.name().as_str(),
        )
            invariant
                n == self.package_set_groups@.len(),
                j <= n,
                names == group_views(self.package_set_groups@).map_values(|v: GroupView| v.name),
                forall|k: int| 0 <= k < j ==> text_le(#[trigger] names[k], group@.name),
            decreases n - j,
        {
            j += 1;
        }
        proof {
            lemma_sorted_position(names, group@.name, j as int);
        }
        let ghost before = self.package_set_groups@;
        self.package_set_groups.insert(j, group);
        assert(group_views(self.package_set_groups@) =~= group_views(before).insert(j as int, group@));
        proof {
            if names_sorted(names) {
                lemma_sorted_insert(names, group@.name, j as int);
                assert(self@.groups.map_values(|v: GroupView| v.name) =~= names.insert(
                    j as int,
                    group@.name,
                ));
            }
        }
    }

    /// The repository's root directory.
    pub fn path(&self) -> (r: &String)
        ensures
            r@ == self@.path,
    {
        &self.path
    }

    /// Returns `true` if the repository has no groups.
    pub fn is_empty(&self) -> (r: bool)
        ensures
            r == (self@.groups.len() == 0),
    {
        self.package_set_groups.len() == 0
    }

    /// The repository's groups, in order.
    pub fn groups(&self) -> (r: &Vec<PackageSetGroup>)
        ensures
            group_views(r@) == self@.groups,
    {
        &self.package_set_groups
    }

    /// Returns `true` if the repository has a group named `name`.
    pub fn has_group(&self, name: &Name) -> (r: bool)
        ensures
            r == exists|i: int| 0 <= i < self@.groups.len() && (#[trigger] self@.groups[i]).name == name@,
    {
        self.group(name).is_some()
    }

    /// The first group named `name`, if any.
    pub fn group(&self, name: &Name) -> (r: Option<&PackageSetGroup>)
        ensures
            match r {
                Some(g) => exists|i: int|
                    0 <= i < self@.groups.len() && g@ == (#[trigger] self@.groups[i]) && g@.name
                        == name@ && forall|j: int|
                        0 <= j < i ==> (#[trigger] self@.groups[j]).name != name@,
                None => forall|i: int|
                    0 <= i < self@.groups.len() ==> (#[trigger] self@.groups[i]).name != name@,
            },
    {
        let mut i: usize = 0;
        while i < self.package_set_groups.len()
            invariant
                i <= self.package_set_groups@.len(),
                self@.groups == group_views(self.package_set_groups@),
                forall|j: int| 0 <= j < i ==> (#[trigger] self@.groups[j]).name != name@,
            decreases self.package_set_groups@.len() - i,
        {
            if *self.package_set_groups[i].name() == *name {
                assert(self@.groups[i as int] == self.package_set_groups@[i as int]@);
                return Some(&self.package_set_groups[i]);
            }
            i += 1;
        }
        None
    }
}

} // verus!
