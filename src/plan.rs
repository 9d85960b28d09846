//! The execution orchestrator: the ordered steps that an install, update, uninstall or
//! link-files request takes across the repository.
//!
//! Planning is pure. The caller performs the steps in order and stops at the first that
//! fails; no step depends on the outcome of an earlier one except through that rule, so a
//! history record always follows the successful command of its package.
use vstd::prelude::*;

use crate::env::{
    DirTable, action_vars_of, add_action_vars, add_other_vars, add_package_action_vars,
    add_package_set_action_vars, dirs_in, extend_templated, found_dirs, package_vars_of, set_vars_of,
    PackageDirs,
};
use crate::error::ErrorKind;
use crate::history::{InstalledPackage, RecordView};
use crate::installer::{
    InstallActionKind, InstallerRegistry, InstallerView, keyed, registry_key, registry_of,
};
use crate::name::{KindView, Name, PackageKind, Platform, platform_matches, resolve_platform};
use crate::packages::{
    ActionsView, GroupView, Package, PackageRepository, PackageSet, PackageSetGroup,
    PackageSetView, PackageView, group_views, package_views, set_views,
};
use crate::paths::{file_name_of, joined, parent_of};
use crate::strmap::StringMap;
use crate::command::ShellCommand;
use crate::template::{safe_text, substitute, var_string_replace};

verus! {

/// The model of a step.
pub ghost enum StepView {
    Shell { script: Seq<char>, vars: Map<Seq<char>, Seq<char>> },
    Record(RecordView),
    Link { link: Seq<char>, target: Seq<char> },
    Unlink { link: Seq<char> },
}

/// One thing to do.
#[derive(Debug)]
pub enum Step {
    /// Run a command; on failure, stop.
    Shell(ShellCommand),
    /// Append a record to the install history.
    Record(InstalledPackage),
    /// Create a symbolic link at `link` that points to `target`.
    Link { link: String, target: String },
    /// Remove the symbolic link at `link`.
    Unlink { link: String },
}

impl View for Step {
    type V = StepView;

    open spec fn view(&self) -> StepView {
        match self {
            Step::Shell(c) => StepView::Shell { script: c.script_text(), vars: c.vars_map() },
            Step::Record(r) => StepView::Record(r@),
            Step::Link { link, target } => StepView::Link { link: link@, target: target@ },
            Step::Unlink { link } => StepView::Unlink { link: link@ },
        }
    }
}

pub open spec fn step_views(s: Seq<Step>) -> Seq<StepView> {
    s.map_values(|x: Step| x@)
}

/// The step that runs `template` with `vars`.
pub open spec fn shell_step(template: Seq<char>, vars: Map<Seq<char>, Seq<char>>) -> StepView {
    StepView::Shell { script: safe_text(substitute(template, vars)), vars }
}

/// The steps for one package whose installer was found: its command, if the installer and
/// the package both apply to the current platform and the installer has a command for the
/// action, followed by the history record.
pub open spec fn package_steps_of(
    inst: InstallerView,
    pkg: PackageView,
    action: InstallActionKind,
    current: Platform,
    group: Seq<char>,
    set: Seq<char>,
    vars: Map<Seq<char>, Seq<char>>,
) -> Seq<StepView> {
    if platform_matches(current, inst.platform) && platform_matches(current, pkg.platform)
        && inst.commands.contains_key(action) {
        seq![
            shell_step(inst.commands[action], vars),
            StepView::Record(
                RecordView {
                    date_time: None,
                    group,
                    set,
                    package: pkg.name,
                    installer: inst.name,
                },
            ),
        ]
    } else {
        Seq::empty()
    }
}

/// The fixed context of a plan.
pub ghost struct PlanContext {
    pub registry: Map<(Platform, KindView), InstallerView>,
    pub current: Platform,
    pub action: InstallActionKind,
    pub dirs: Seq<(String, PackageDirs)>,
}

/// The steps for the packages of a set, in order; the kind of the first package without an
/// installer ends them.
pub open spec fn packages_plan(
    ctx: PlanContext,
    group: Seq<char>,
    set: Seq<char>,
    vars: Map<Seq<char>, Seq<char>>,
    pkgs: Seq<PackageView>,
) -> (Seq<StepView>, Option<KindView>)
    decreases pkgs.len(),
{
    if pkgs.len() == 0 {
        (Seq::empty(), None)
    } else {
        let prev = packages_plan(ctx, group, set, vars, pkgs.drop_last());
        if prev.1 is Some {
            prev
        } else {
            let p = pkgs.last();
            let key = (resolve_platform(ctx.current, p.platform), p.kind);
            if ctx.registry.contains_key(key) {
                (
                    prev.0 + package_steps_of(
                        ctx.registry[key],
                        p,
                        ctx.action,
                        ctx.current,
                        group,
                        set,
                        package_vars_of(p, vars, found_dirs(dirs_in(ctx.dirs, p.name))),
                    ),
                    None,
                )
            } else {
                (prev.0, Some(p.kind))
            }
        }
    }
}

/// A package without an installer ends the packages' steps: the steps of the packages
/// before it are kept, no step is planned for it or for any package after it, and its kind
/// is the failure.
pub proof fn lemma_missing_installer_ends_packages(
    ctx: PlanContext,
    group: Seq<char>,
    set: Seq<char>,
    vars: Map<Seq<char>, Seq<char>>,
    pkgs: Seq<PackageView>,
    q: PackageView,
    rest: Seq<PackageView>,
)
    requires
        packages_plan(ctx, group, set, vars, pkgs).1 is None,
        !ctx.registry.contains_key((resolve_platform(ctx.current, q.platform), q.kind)),
    ensures
        packages_plan(ctx, group, set, vars, pkgs.push(q) + rest) == (
            packages_plan(ctx, group, set, vars, pkgs).0,
            Some(q.kind),
        ),
    decreases rest.len(),
{
    if rest.len() == 0 {
        assert(pkgs.push(q) + rest =~= pkgs.push(q));
        assert(pkgs.push(q).drop_last() =~= pkgs);
    } else {
        lemma_missing_installer_ends_packages(ctx, group, set, vars, pkgs, q, rest.drop_last());
        assert((pkgs.push(q) + rest).drop_last() =~= pkgs.push(q) + rest.drop_last());
    }
}

/// Link on install, unlink on update, nothing otherwise.
pub open spec fn link_or_unlink(
    link: Seq<char>,
    target: Seq<char>,
    action: InstallActionKind,
) -> Seq<StepView> {
    match action {
        InstallActionKind::Install => seq![StepView::Link { link, target }],
        InstallActionKind::Update => seq![StepView::Unlink { link }],
        _ => Seq::empty(),
    }
}

/// The env-file steps: its link lives in the set's own subdirectory, named as the file.
pub open spec fn env_file_steps(set: PackageSetView, action: InstallActionKind) -> Seq<StepView> {
    match set.env_file {
        Some(f) => match (parent_of(set.path), file_name_of(f)) {
            (Some(dir), Some(fname)) => link_or_unlink(joined(joined(dir, set.name), fname), f, action),
            _ => Seq::empty(),
        },
        None => Seq::empty(),
    }
}

/// The link-files steps, in order: each source joined onto the set's path, each target
/// templated with the set's variables.
pub open spec fn link_steps(
    set: PackageSetView,
    action: InstallActionKind,
    vars: Map<Seq<char>, Seq<char>>,
    files: Seq<(Seq<char>, Seq<char>)>,
) -> Seq<StepView>
    decreases files.len(),
{
    if files.len() == 0 {
        Seq::empty()
    } else {
        link_steps(set, action, vars, files.drop_last()) + link_or_unlink(
            joined(set.path, files.last().0),
            substitute(files.last().1, vars),
            action,
        )
    }
}

/// The variables of a set's commands: the action's, the set's own, then its declared
/// variables templated in order.
pub open spec fn set_command_vars(set: PackageSetView, action_vars: Map<Seq<char>, Seq<char>>) -> Map<
    Seq<char>,
    Seq<char>,
> {
    extend_templated(set_vars_of(set, action_vars), set.env_vars)
}

/// The steps of the action phase, and the kind that ended it, if any.
pub open spec fn action_phase(
    ctx: PlanContext,
    group: Seq<char>,
    set: PackageSetView,
    vars: Map<Seq<char>, Seq<char>>,
) -> (Seq<StepView>, Option<KindView>) {
    match set.actions {
        ActionsView::Packages(p) => packages_plan(ctx, group, set.name, vars, p),
        ActionsView::Scripts(m) => (
            if m.contains_key(ctx.action) {
                seq![shell_step(m[ctx.action], vars)]
            } else {
                Seq::empty()
            },
            None,
        ),
    }
}

/// The phases of one set, in their fixed order: run-before, the action phase, the env-file,
/// the link-files, and run-after without the `package_name` variable.
pub open spec fn set_plan(
    ctx: PlanContext,
    group: Seq<char>,
    set: PackageSetView,
    action_vars: Map<Seq<char>, Seq<char>>,
) -> (Seq<StepView>, Option<KindView>) {
    let vars = set_command_vars(set, action_vars);
    let before = match set.run_before {
        Some(c) => seq![shell_step(c, vars)],
        None => Seq::empty(),
    };
    let middle = action_phase(ctx, group, set, vars);
    if middle.1 is Some {
        (before + middle.0, middle.1)
    } else {
        let after = match set.run_after {
            Some(c) => seq![shell_step(c, vars.remove("package_name"@))],
            None => Seq::empty(),
        };
        (
            before + middle.0 + env_file_steps(set, ctx.action) + link_steps(
                set,
                ctx.action,
                vars,
                set.link_files,
            ) + after,
            None,
        )
    }
}

/// The steps of several sets in order, ending at the first failure.
pub open spec fn sets_plan(
    ctx: PlanContext,
    group: Seq<char>,
    sets: Seq<PackageSetView>,
    action_vars: Map<Seq<char>, Seq<char>>,
) -> (Seq<StepView>, Option<KindView>)
    decreases sets.len(),
{
    if sets.len() == 0 {
        (Seq::empty(), None)
    } else {
        let prev = sets_plan(ctx, group, sets.drop_last(), action_vars);
        if prev.1 is Some {
            prev
        } else {
            let cur = set_plan(ctx, group, sets.last(), action_vars);
            (prev.0 + cur.0, cur.1)
        }
    }
}

/// The position of the first set named `name`.
pub open spec fn first_set_named(sets: Seq<PackageSetView>, name: Seq<char>) -> Option<int>
    decreases sets.len(),
{
    if sets.len() == 0 {
        None
    } else {
        match first_set_named(sets.drop_last(), name) {
            Some(i) => Some(i),
            None => if sets.last().name == name {
                Some(sets.len() - 1)
            } else {
                None
            },
        }
    }
}

/// The position of the first group named `name`.
pub open spec fn first_group_named(groups: Seq<GroupView>, name: Seq<char>) -> Option<int>
    decreases groups.len(),
{
    if groups.len() == 0 {
        None
    } else {
        match first_group_named(groups.drop_last(), name) {
            Some(i) => Some(i),
            None => if groups.last().name == name {
                Some(groups.len() - 1)
            } else {
                None
            },
        }
    }
}

/// The steps of a group: the named set, or all its sets; a set filter that names no set is
/// skipped, and its name is the third part.
pub open spec fn group_plan(
    ctx: PlanContext,
    g: GroupView,
    set_filter: Option<Seq<char>>,
    action_vars: Map<Seq<char>, Seq<char>>,
) -> (Seq<StepView>, Option<KindView>, Seq<Seq<char>>) {
    match set_filter {
        None => {
            let p = sets_plan(ctx, g.name, g.sets, action_vars);
            (p.0, p.1, Seq::empty())
        },
        Some(n) => match first_set_named(g.sets, n) {
            Some(i) => {
                let p = set_plan(ctx, g.name, g.sets[i], action_vars);
                (p.0, p.1, Seq::empty())
            },
            None => (Seq::empty(), None, seq![n]),
        },
    }
}

/// The steps of several groups in order, ending at the first failure.
pub open spec fn groups_plan(
    ctx: PlanContext,
    groups: Seq<GroupView>,
    set_filter: Option<Seq<char>>,
    action_vars: Map<Seq<char>, Seq<char>>,
) -> (Seq<StepView>, Option<KindView>, Seq<Seq<char>>)
    decreases groups.len(),
{
    if groups.len() == 0 {
        (Seq::empty(), None, Seq::empty())
    } else {
        let prev = groups_plan(ctx, groups.drop_last(), set_filter, action_vars);
        if prev.1 is Some {
            prev
        } else {
            let cur = group_plan(ctx, groups.last(), set_filter, action_vars);
            (prev.0 + cur.0, cur.1, prev.2 + cur.2)
        }
    }
}

/// The steps of a whole request: the named group, or all groups; a group filter that names
/// no group is skipped, and the names of the filters skipped are the third part.
pub open spec fn repository_plan(
    ctx: PlanContext,
    groups: Seq<GroupView>,
    group_filter: Option<Seq<char>>,
    set_filter: Option<Seq<char>>,
    action_vars: Map<Seq<char>, Seq<char>>,
) -> (Seq<StepView>, Option<KindView>, Seq<Seq<char>>) {
    match group_filter {
        None => groups_plan(ctx, groups, set_filter, action_vars),
        Some(n) => match first_group_named(groups, n) {
            Some(i) => group_plan(ctx, groups[i], set_filter, action_vars),
            None => (Seq::empty(), None, seq![n]),
        },
    }
}

pub open spec fn opt_name(n: Option<Name>) -> Option<Seq<char>> {
    match n {
        Some(x) => Some(x@),
        None => None,
    }
}

/// The planned steps of a request; `outcome` is the error that ends the run once the steps
/// are done, and `skipped` holds each filter name that matched nothing.
#[derive(Debug)]
pub struct ExecutionPlan {
    pub steps: Vec<Step>,
    pub outcome: Result<(), ErrorKind>,
    pub skipped: Vec<Name>,
}

pub open spec fn opt_kind(k: Option<PackageKind>) -> Option<KindView> {
    match k {
        Some(x) => Some(x@),
        None => None,
    }
}

pub open spec fn context_of(
    reg: InstallerRegistry,
    action: InstallActionKind,
    dirs: DirTable,
) -> PlanContext {
    PlanContext { registry: reg@, current: reg.current(), action, dirs: dirs.entries() }
}

/// The installer stored under a key has that key.
proof fn lemma_registry_keys(current: Platform, s: Seq<InstallerView>, k: (Platform, KindView))
    requires
        registry_of(current, s).contains_key(k),
    ensures
        registry_key(current, registry_of(current, s)[k]) == k,
    decreases s.len(),
{
    if s.len() > 0 {
        assert(keyed(current, s).drop_last() =~= keyed(current, s.drop_last()));
        if k != registry_key(current, s.last()) {
            lemma_registry_keys(current, s.drop_last(), k);
        }
    }
}

/// Appends the steps of `packages` to `out`; returns the kind of the first package that has
/// no installer, after which nothing more is appended.
fn plan_packages(
    reg: &InstallerRegistry,
    action: InstallActionKind,
    dirs: &DirTable,
    group: &Name,
    set: &Name,
    vars: &StringMap,
    packages: &Vec<Package>,
    out: &mut Vec<Step>,
) -> (fail: Option<PackageKind>)
    ensures
        ({
            let p = packages_plan(
                context_of(*reg, action, *dirs),
                group@,
                set@,
                vars@,
                package_views(packages@),
            );
            step_views(final(out)@) == step_views(old(out)@) + p.0 && opt_kind(fail) == p.1
        }),
{
    let ghost ctx = context_of(*reg, action, *dirs);
    let ghost pv = package_views(packages@);
    let ghost start = step_views(out@);
    let current = reg.current_platform();
    let mut fail: Option<PackageKind> = None;
    let mut i: usize = 0;
    proof {
        assert(pv.subrange(0, 0) =~= Seq::<PackageView>::empty());
        assert(start + Seq::<StepView>::empty() =~= start);
    }
    while i < packages.len()
        invariant
            i <= packages@.len(),
            pv == package_views(packages@),
            ctx == context_of(*reg, action, *dirs),
            current == ctx.current,
            step_views(out@) == start + packages_plan(ctx, group@, set@, vars@, pv.subrange(0, i as int)).0,
            opt_kind(fail) == packages_plan(ctx, group@, set@, vars@, pv.subrange(0, i as int)).1,
        decreases packages@.len() - i,
    {
        let ghost prev = packages_plan(ctx, group@, set@, vars@, pv.subrange(0, i as int));
        proof {
            assert(pv.subrange(0, i + 1).drop_last() =~= pv.subrange(0, i as int));
            assert(pv.subrange(0, i + 1).last() == packages@[i as int]@);
        }
        if fail.is_none() {
            let pkg = &packages[i];
            let platform = pkg.platform(current);
            match reg.installer_for(platform, pkg.kind()) {
                None => {
                    fail = Some(pkg.kind().clone());
                },
                Some(inst) => {
                    let ghost before = step_views(out@);
                    proof {
                        lemma_registry_keys(current, reg.entries(), (platform, pkg@.kind));
                    }
                    let unknown = PackageDirs::unknown();
                    let pdirs = match dirs.get(pkg.name().as_str()) {
                        Some(d) => d,
                        None => &unknown,
                    };
                    let pvars = add_package_action_vars(pkg, vars, pdirs);
                    match inst.package_action(&action, pkg, &pvars, current) {
                        Ok(Some(cmd)) => {
                            out.push(Step::Shell(cmd));
                            out.push(
                                Step::Record(
                                    InstalledPackage::new(
                                        group.clone(),
                                        set.clone(),
                                        pkg.name().clone(),
                                        inst.name().clone(),
                                    ),
                                ),
                            );
                            proof {
                                let steps = package_steps_of(
                                    inst@,
                                    pkg@,
                                    action,
                                    current,
                                    group@,
                                    set@,
                                    package_vars_of(pkg@, vars@, found_dirs(dirs_in(dirs.entries(), pkg@.name))),
                                );
                                assert(step_views(out@) =~= before + steps);
                                assert(start + prev.0 + steps =~= start + (prev.0 + steps));
                            }
                        },
                        Ok(None) => {
                            proof {
                                assert(prev.0 + Seq::<StepView>::empty() =~= prev.0);
                            }
                        },
                        Err(_) => {},
                    }
                },
            }
        }
        i += 1;
    }
    proof {
        assert(pv.subrange(0, i as int) =~= pv);
    }
    fail
}

fn push_link_or_unlink(out: &mut Vec<Step>, link: String, target: String, action: InstallActionKind)
    ensures
        step_views(final(out)@) == step_views(old(out)@) + link_or_unlink(link@, target@, action),
{
    let ghost before = step_views(out@);
    match action {
        InstallActionKind::Install => {
            out.push(Step::Link { link, target });
        },
        InstallActionKind::Update => {
            out.push(Step::Unlink { link });
        },
        _ => {},
    }
    assert(step_views(out@) =~= before + link_or_unlink(link@, target@, action));
}

fn plan_action_phase(
    reg: &InstallerRegistry,
    action: InstallActionKind,
    dirs: &DirTable,
    group: &Name,
    set: &PackageSet,
    vars: &StringMap,
    out: &mut Vec<Step>,
) -> (fail: Option<PackageKind>)
    ensures
        ({
            let p = action_phase(context_of(*reg, action, *dirs), group@, set@, vars@);
            step_views(final(out)@) == step_views(old(out)@) + p.0 && opt_kind(fail) == p.1
        }),
{
    let ghost start = step_views(out@);
    match set.packages() {
        Some(packages) => plan_packages(reg, action, dirs, group, set.name(), vars, packages, out),
        None => {
            match set.scripts() {
                Some(scripts) => match scripts.get(&action) {
                    Some(cmd) => {
                        out.push(Step::Shell(ShellCommand::prepare(cmd.as_str(), vars)));
                    },
                    None => {},
                },
                None => {},
            }
            assert(step_views(out@) =~= start + action_phase(
                context_of(*reg, action, *dirs),
                group@,
                set@,
                vars@,
            ).0);
            None
        },
    }
}

fn plan_env_file(set: &PackageSet, action: InstallActionKind, out: &mut Vec<Step>)
    ensures
        step_views(final(out)@) == step_views(old(out)@) + env_file_steps(set@, action),
{
    let ghost start = step_views(out@);
    match set.env_file() {
        Some(f) => match (crate::paths::path_parent(set.path().as_str()), crate::paths::path_file_name(
            f.as_str(),
        )) {
            (Some(dir), Some(fname)) => {
                let in_set = crate::paths::path_join(dir.as_str(), set.name().as_str());
                let link = crate::paths::path_join(in_set.as_str(), fname.as_str());
                push_link_or_unlink(out, link, f.clone(), action);
            },
            _ => {
                assert(step_views(out@) =~= start + env_file_steps(set@, action));
            },
        },
        None => {
            assert(step_views(out@) =~= start + env_file_steps(set@, action));
        },
    }
}

fn plan_links(set: &PackageSet, action: InstallActionKind, vars: &StringMap, out: &mut Vec<Step>)
    ensures
        step_views(final(out)@) == step_views(old(out)@) + link_steps(
            set@,
            action,
            vars@,
            set@.link_files,
        ),
{
    let ghost start = step_views(out@);
    let links = set.link_files();
    let n = links.len();
    let mut i: usize = 0;
    proof {
        assert(set@.link_files.subrange(0, 0) =~= Seq::<(Seq<char>, Seq<char>)>::empty());
        assert(start + Seq::<StepView>::empty() =~= start);
    }
    while i < n
        invariant
            n == set@.link_files.len(),
            links.pairs() == set@.link_files,
            i <= n,
            step_views(out@) == start + link_steps(
                set@,
                action,
                vars@,
                set@.link_files.subrange(0, i as int),
            ),
        decreases n - i,
    {
        let link = crate::paths::path_join(set.path().as_str(), links.key_at(i).as_str());
        let target = var_string_replace(links.value_at(i).as_str(), vars);
        push_link_or_unlink(out, link, target, action);
        proof {
            let files = set@.link_files.subrange(0, i + 1);
            assert(files.drop_last() =~= set@.link_files.subrange(0, i as int));
            assert(files.last() == set@.link_files[i as int]);
            assert(step_views(out@) =~= start + link_steps(set@, action, vars@, files));
        }
        i += 1;
    }
    assert(set@.link_files.subrange(0, n as int) =~= set@.link_files);
}

pub open spec fn after_steps(set: PackageSetView, vars: Map<Seq<char>, Seq<char>>) -> Seq<StepView> {
    match set.run_after {
        Some(c) => seq![shell_step(c, vars.remove("package_name"@))],
        None => Seq::empty(),
    }
}

pub open spec fn before_steps(set: PackageSetView, vars: Map<Seq<char>, Seq<char>>) -> Seq<StepView> {
    match set.run_before {
        Some(c) => seq![shell_step(c, vars)],
        None => Seq::empty(),
    }
}

fn plan_after(set: &PackageSet, vars: &StringMap, out: &mut Vec<Step>)
    ensures
        step_views(final(out)@) == step_views(old(out)@) + after_steps(set@, vars@),
{
    let ghost start = step_views(out@);
    match set.run_after() {
        Some(cmd) => {
            let mut after_vars = vars.clone();
            after_vars.remove("package_name");
            proof {
                reveal_strlit("package_name");
            }
            out.push(Step::Shell(ShellCommand::prepare(cmd.as_str(), &after_vars)));
        },
        None => {},
    }
    assert(step_views(out@) =~= start + after_steps(set@, vars@));
}

fn plan_before(set: &PackageSet, vars: &StringMap, out: &mut Vec<Step>)
    ensures
        step_views(final(out)@) == step_views(old(out)@) + before_steps(set@, vars@),
{
    let ghost start = step_views(out@);
    match set.run_before() {
        Some(cmd) => {
            out.push(Step::Shell(ShellCommand::prepare(cmd.as_str(), vars)));
        },
        None => {},
    }
    assert(step_views(out@) =~= start + before_steps(set@, vars@));
}

/// Appends the steps of one set to `out`; returns the kind of the first package without an
/// installer, which ends the set early.
fn plan_set(
    reg: &InstallerRegistry,
    action: InstallActionKind,
    dirs: &DirTable,
    group: &Name,
    set: &PackageSet,
    action_vars: &StringMap,
    out: &mut Vec<Step>,
) -> (fail: Option<PackageKind>)
    ensures
        ({
            let p = set_plan(context_of(*reg, action, *dirs), group@, set@, action_vars@);
            step_views(final(out)@) == step_views(old(out)@) + p.0 && opt_kind(fail) == p.1
        }),
{
    let ghost ctx = context_of(*reg, action, *dirs);
    let ghost start = step_views(out@);
    let set_vars = add_package_set_action_vars(set, action_vars);
    let vars = add_other_vars(&set_vars, set.env_vars());
    assert(vars@ == set_command_vars(set@, action_vars@));
    plan_before(set, &vars, out);
    let ghost s1 = step_views(out@);
    let fail = plan_action_phase(reg, action, dirs, group, set, &vars, out);
    let ghost middle = action_phase(ctx, group@, set@, vars@);
    if fail.is_some() {
        assert(step_views(out@) =~= start + (before_steps(set@, vars@) + middle.0));
        return fail;
    }
    let ghost s2 = step_views(out@);
    plan_env_file(set, action, out);
    let ghost s3 = step_views(out@);
    plan_links(set, action, &vars, out);
    let ghost s4 = step_views(out@);
    plan_after(set, &vars, out);
    proof {
        assert(step_views(out@) =~= start + (before_steps(set@, vars@) + middle.0 + env_file_steps(
            set@,
            action,
        ) + link_steps(set@, action, vars@, set@.link_files) + after_steps(set@, vars@)));
    }
    None
}

fn plan_sets(
    reg: &InstallerRegistry,
    action: InstallActionKind,
    dirs: &DirTable,
    group: &PackageSetGroup,
    action_vars: &StringMap,
    out: &mut Vec<Step>,
) -> (fail: Option<PackageKind>)
    ensures
        ({
            let p = sets_plan(context_of(*reg, action, *dirs), group@.name, group@.sets, action_vars@);
            step_views(final(out)@) == step_views(old(out)@) + p.0 && opt_kind(fail) == p.1
        }),
{
    let ghost ctx = context_of(*reg, action, *dirs);
    let ghost start = step_views(out@);
    let sets = group.package_sets();
    let ghost sv = group@.sets;
    let mut fail: Option<PackageKind> = None;
    let mut i: usize = 0;
    proof {
        assert(sv.subrange(0, 0) =~= Seq::<PackageSetView>::empty());
        assert(start + Seq::<StepView>::empty() =~= start);
    }
    while i < sets.len()
        invariant
            i <= sets@.len(),
            sv == set_views(sets@),
            ctx == context_of(*reg, action, *dirs),
            step_views(out@) == start + sets_plan(ctx, group@.name, sv.subrange(0, i as int), action_vars@).0,
            opt_kind(fail) == sets_plan(ctx, group@.name, sv.subrange(0, i as int), action_vars@).1,
        decreases sets@.len() - i,
    {
        let ghost prev = sets_plan(ctx, group@.name, sv.subrange(0, i as int), action_vars@);
        proof {
            assert(sv.subrange(0, i + 1).drop_last() =~= sv.subrange(0, i as int));
            assert(sv.subrange(0, i + 1).last() == sets@[i as int]@);
        }
        if fail.is_none() {
            let ghost before = step_views(out@);
            fail = plan_set(reg, action, dirs, group.name(), &sets[i], action_vars, out);
            proof {
                let cur = set_plan(ctx, group@.name, sets@[i as int]@, action_vars@);
                assert(start + prev.0 + cur.0 =~= start + (prev.0 + cur.0));
            }
        }
        i += 1;
    }
    proof {
        assert(sv.subrange(0, i as int) =~= sv);
    }
    fail
}

proof fn lemma_first_set_named(sets: Seq<PackageSetView>, name: Seq<char>, i: int)
    requires
        0 <= i < sets.len(),
        sets[i].name == name,
        forall|j: int| 0 <= j < i ==> (#[trigger] sets[j]).name != name,
    ensures
        first_set_named(sets, name) == Some(i),
    decreases sets.len(),
{
    if i < sets.len() - 1 {
        lemma_first_set_named(sets.drop_last(), name, i);
    } else {
        lemma_no_set_named(sets.drop_last(), name);
    }
}

proof fn lemma_no_set_named(sets: Seq<PackageSetView>, name: Seq<char>)
    requires
        forall|j: int| 0 <= j < sets.len() ==> (#[trigger] sets[j]).name != name,
    ensures
        first_set_named(sets, name) is None,
    decreases sets.len(),
{
    if sets.len() > 0 {
        lemma_no_set_named(sets.drop_last(), name);
    }
}

proof fn lemma_first_group_named(groups: Seq<GroupView>, name: Seq<char>, i: int)
    requires
        0 <= i < groups.len(),
        groups[i].name == name,
        forall|j: int| 0 <= j < i ==> (#[trigger] groups[j]).name != name,
    ensures
        first_group_named(groups, name) == Some(i),
    decreases groups.len(),
{
    if i < groups.len() - 1 {
        lemma_first_group_named(groups.drop_last(), name, i);
    } else {
        lemma_no_group_named(groups.drop_last(), name);
    }
}

proof fn lemma_no_group_named(groups: Seq<GroupView>, name: Seq<char>)
    requires
        forall|j: int| 0 <= j < groups.len() ==> (#[trigger] groups[j]).name != name,
    ensures
        first_group_named(groups, name) is None,
    decreases groups.len(),
{
    if groups.len() > 0 {
        lemma_no_group_named(groups.drop_last(), name);
    }
}

fn plan_group(
    reg: &InstallerRegistry,
    action: InstallActionKind,
    dirs: &DirTable,
    group: &PackageSetGroup,
    set_filter: &Option<Name>,
    action_vars: &StringMap,
    out: &mut Vec<Step>,
    skipped: &mut Vec<Name>,
) -> (fail: Option<PackageKind>)
    ensures
        ({
            let p = group_plan(context_of(*reg, action, *dirs), group@, opt_name(*set_filter), action_vars@);
            step_views(final(out)@) == step_views(old(out)@) + p.0 && opt_kind(fail) == p.1
                && crate::installer::name_texts(final(skipped)@) == crate::installer::name_texts(old(skipped)@) + p.2
        }),
{
    let ghost start = step_views(out@);
    let ghost sk0 = crate::installer::name_texts(skipped@);
    proof {
        assert(sk0 + Seq::<Seq<char>>::empty() =~= sk0);
    }
    match set_filter {
        None => plan_sets(reg, action, dirs, group, action_vars, out),
        Some(name) => match group.package_set(name) {
            Some(set) => {
                proof {
                    let i = choose|i: int|
                        0 <= i < group@.sets.len() && set@ == (#[trigger] group@.sets[i])
                            && set@.name == name@ && forall|j: int|
                            0 <= j < i ==> (#[trigger] group@.sets[j]).name != name@;
                    lemma_first_set_named(group@.sets, name@, i);
                }
                plan_set(reg, action, dirs, group.name(), set, action_vars, out)
            },
            None => {
                proof {
                    lemma_no_set_named(group@.sets, name@);
                    assert(start + Seq::<StepView>::empty() =~= start);
                }
                skipped.push(name.clone());
                assert(crate::installer::name_texts(skipped@) =~= sk0 + seq![name@]);
                None
            },
        },
    }
}

fn plan_groups(
    reg: &InstallerRegistry,
    action: InstallActionKind,
    dirs: &DirTable,
    groups: &Vec<PackageSetGroup>,
    set_filter: &Option<Name>,
    action_vars: &StringMap,
    out: &mut Vec<Step>,
    skipped: &mut Vec<Name>,
) -> (fail: Option<PackageKind>)
    ensures
        ({
            let p = groups_plan(context_of(*reg, action, *dirs), group_views(groups@), opt_name(*set_filter), action_vars@);
            step_views(final(out)@) == step_views(old(out)@) + p.0 && opt_kind(fail) == p.1
                && crate::installer::name_texts(final(skipped)@) == crate::installer::name_texts(old(skipped)@) + p.2
        }),
{
    let ghost ctx = context_of(*reg, action, *dirs);
    let ghost start = step_views(out@);
    let ghost skipped0 = crate::installer::name_texts(skipped@);
    let ghost gv = group_views(groups@);
    let ghost sf = opt_name(*set_filter);
    let mut fail: Option<PackageKind> = None;
    let mut i: usize = 0;
    proof {
        assert(gv.subrange(0, 0) =~= Seq::<GroupView>::empty());
        assert(start + Seq::<StepView>::empty() =~= start);
        assert(skipped0 + Seq::<Seq<char>>::empty() =~= skipped0);
    }
    while i < groups.len()
        invariant
            i <= groups@.len(),
            gv == group_views(groups@),
            sf == opt_name(*set_filter),
            ctx == context_of(*reg, action, *dirs),
            step_views(out@) == start + groups_plan(ctx, gv.subrange(0, i as int), sf, action_vars@).0,
            opt_kind(fail) == groups_plan(ctx, gv.subrange(0, i as int), sf, action_vars@).1,
            crate::installer::name_texts(skipped@) == skipped0 + groups_plan(ctx, gv.subrange(0, i as int), sf, action_vars@).2,
        decreases groups@.len() - i,
    {
        let ghost prev = groups_plan(ctx, gv.subrange(0, i as int), sf, action_vars@);
        proof {
            assert(gv.subrange(0, i + 1).drop_last() =~= gv.subrange(0, i as int));
            assert(gv.subrange(0, i + 1).last() == groups@[i as int]@);
        }
        if fail.is_none() {
            fail = plan_group(reg, action, dirs, &groups[i], set_filter, action_vars, out, skipped);
            proof {
                let cur = group_plan(ctx, groups@[i as int]@, sf, action_vars@);
                assert(start + prev.0 + cur.0 =~= start + (prev.0 + cur.0));
                assert(skipped0 + prev.2 + cur.2 =~= skipped0 + (prev.2 + cur.2));
            }
        }
        i += 1;
    }
    proof {
        assert(gv.subrange(0, i as int) =~= gv);
    }
    fail
}

impl InstallerRegistry {
    /// Plans `action` over `repository`: the group named by `group_filter` (or every group in
    /// order) and within it the set named by `set_filter` (or every set in order). A filter
    /// that names nothing is recorded in `skipped` and is not an error. A package whose
    /// (platform, kind) has no installer ends the plan with `NoInstallerForKind`; the steps
    /// already planned stay, to be performed before that error is reported.
    pub fn execute(
        &self,
        action: &InstallActionKind,
        repository: &PackageRepository,
        group_filter: &Option<Name>,
        set_filter: &Option<Name>,
        defaults: &StringMap,
        dirs: &DirTable,
    ) -> (r: ExecutionPlan)
        ensures
            ({
                let p = repository_plan(
                    context_of(*self, *action, *dirs),
                    repository@.groups,
                    opt_name(*group_filter),
                    opt_name(*set_filter),
                    action_vars_of(*action, defaults@),
                );
                &&& step_views(r.steps@) == p.0
                &&& crate::installer::name_texts(r.skipped@) == p.2
                &&& match p.1 {
                    None => r.outcome is Ok,
                    Some(k) => r.outcome is Err && r.outcome->Err_0 is NoInstallerForKind
                        && r.outcome->Err_0->NoInstallerForKind_0@ == k,
                }
            }),
    {
        let action_vars = add_action_vars(action, defaults);
        let mut steps: Vec<Step> = Vec::new();
        let mut skipped: Vec<Name> = Vec::new();
        proof {
            assert(step_views(steps@) =~= Seq::<StepView>::empty());
            assert(crate::installer::name_texts(skipped@) =~= Seq::<Seq<char>>::empty());
        }
        let fail = match group_filter {
            None => plan_groups(self, *action, dirs, repository.groups(), set_filter, &action_vars, &mut steps, &mut skipped),
            Some(name) => match repository.group(name) {
                Some(group) => {
                    proof {
                        let i = choose|i: int|
                            0 <= i < repository@.groups.len() && group@ == (
                            #[trigger] repository@.groups[i]) && group@.name == name@ && forall|
                                j: int,
                            | 0 <= j < i ==> (#[trigger] repository@.groups[j]).name != name@;
                        lemma_first_group_named(repository@.groups, name@, i);
                    }
                    plan_group(self, *action, dirs, group, set_filter, &action_vars, &mut steps, &mut skipped)
                },
                None => {
                    proof {
                        lemma_no_group_named(repository@.groups, name@);
                    }
                    skipped.push(name.clone());
                    assert(crate::installer::name_texts(skipped@) =~= seq![name@]);
                    None
                },
            },
        };
        let outcome = match fail {
            None => Ok(()),
            Some(kind) => Err(ErrorKind::NoInstallerForKind(kind)),
        };
        ExecutionPlan { steps, outcome, skipped }
    }
}

/// The update-self steps of a list of installers, in order: each installer of the current
/// platform that has an update-self command runs it with `vars`.
pub open spec fn update_self_steps(
    current: Platform,
    installers: Seq<InstallerView>,
    vars: Map<Seq<char>, Seq<char>>,
) -> Seq<StepView>
    decreases installers.len(),
{
    if installers.len() == 0 {
        Seq::empty()
    } else {
        let prev = update_self_steps(current, installers.drop_last(), vars);
        let i = installers.last();
        if platform_matches(current, i.platform) && i.update_self is Some {
            prev.push(shell_step(i.update_self->Some_0, vars))
        } else {
            prev
        }
    }
}

impl InstallerRegistry {
    /// Plans the update of every installer that can update itself, with the default
    /// variables and `command_action` set to the update action.
    pub fn update_self(&self, defaults: &StringMap) -> (r: Vec<Step>)
        ensures
            step_views(r@) == update_self_steps(
                self.current(),
                self.entries(),
                action_vars_of(InstallActionKind::Update, defaults@),
            ),
    {
        let vars = add_action_vars(&InstallActionKind::Update, defaults);
        let installers = self.installers();
        let current = self.current_platform();
        let ghost iv = self.entries();
        let mut steps: Vec<Step> = Vec::new();
        let mut i: usize = 0;
        proof {
            assert(iv.subrange(0, 0) =~= Seq::<InstallerView>::empty());
            assert(step_views(steps@) =~= Seq::<StepView>::empty());
        }
        while i < installers.len()
            invariant
                i <= installers@.len(),
                iv == crate::installer::views(installers@),
                current == self.current(),
                step_views(steps@) == update_self_steps(current, iv.subrange(0, i as int), vars@),
            decreases installers@.len() - i,
        {
            let inst = &installers[i];
            let ghost before = step_views(steps@);
            if inst.is_platform_match(current) {
                match inst.update_self() {
                    Some(cmd) => {
                        steps.push(Step::Shell(ShellCommand::prepare(cmd.as_str(), &vars)));
                        assert(step_views(steps@) =~= before.push(shell_step(cmd@, vars@)));
                    },
                    None => {},
                }
            }
            proof {
                assert(iv.subrange(0, i + 1).drop_last() =~= iv.subrange(0, i as int));
                assert(iv.subrange(0, i + 1).last() == inst@);
            }
            i += 1;
        }
        assert(iv.subrange(0, i as int) =~= iv);
        steps
    }
}

/// Every history record in `s` comes right after a command step.
pub open spec fn records_follow_commands(s: Seq<StepView>) -> bool {
    forall|i: int| 0 <= i < s.len() && (#[trigger] s[i]) is Record ==> i > 0 && s[i - 1] is Shell
}

proof fn lemma_follow_concat(a: Seq<StepView>, b: Seq<StepView>)
    requires
        records_follow_commands(a),
        records_follow_commands(b),
    ensures
        records_follow_commands(a + b),
{
    let c = a + b;
    assert forall|i: int| 0 <= i < c.len() && (#[trigger] c[i]) is Record implies i > 0 && c[i
        - 1] is Shell by {
        if i < a.len() {
            assert(c[i] == a[i]);
            assert(c[i - 1] == a[i - 1]);
        } else {
            assert(c[i] == b[i - a.len()]);
            assert(b[i - a.len()] is Record);
            assert(c[i - 1] == b[i - a.len() - 1]);
        }
    }
}

proof fn lemma_follow_packages(
    ctx: PlanContext,
    group: Seq<char>,
    set: Seq<char>,
    vars: Map<Seq<char>, Seq<char>>,
    pkgs: Seq<PackageView>,
)
    ensures
        records_follow_commands(packages_plan(ctx, group, set, vars, pkgs).0),
    decreases pkgs.len(),
{
    if pkgs.len() > 0 {
        lemma_follow_packages(ctx, group, set, vars, pkgs.drop_last());
        let prev = packages_plan(ctx, group, set, vars, pkgs.drop_last());
        if prev.1 is None {
            let p = pkgs.last();
            let key = (resolve_platform(ctx.current, p.platform), p.kind);
            if ctx.registry.contains_key(key) {
                let steps = package_steps_of(
                    ctx.registry[key],
                    p,
                    ctx.action,
                    ctx.current,
                    group,
                    set,
                    package_vars_of(p, vars, found_dirs(dirs_in(ctx.dirs, p.name))),
                );
                assert(records_follow_commands(steps));
                lemma_follow_concat(prev.0, steps);
            }
        }
    }
}

proof fn lemma_follow_links(
    set: PackageSetView,
    action: InstallActionKind,
    vars: Map<Seq<char>, Seq<char>>,
    files: Seq<(Seq<char>, Seq<char>)>,
)
    ensures
        forall|i: int| 0 <= i < link_steps(set, action, vars, files).len() ==> !((#[trigger] link_steps(set, action, vars, files)[i]) is Record),
    decreases files.len(),
{
    if files.len() > 0 {
        lemma_follow_links(set, action, vars, files.drop_last());
        let a = link_steps(set, action, vars, files.drop_last());
        let b = link_or_unlink(joined(set.path, files.last().0), substitute(files.last().1, vars), action);
        assert forall|i: int| 0 <= i < (a + b).len() implies !((#[trigger] (a + b)[i]) is Record) by {
            if i < a.len() {
                assert((a + b)[i] == a[i]);
            } else {
                assert((a + b)[i] == b[i - a.len()]);
            }
        }
    }
}

proof fn lemma_no_records(s: Seq<StepView>)
    requires
        forall|i: int| 0 <= i < s.len() ==> !((#[trigger] s[i]) is Record),
    ensures
        records_follow_commands(s),
{
}

proof fn lemma_follow_set(
    ctx: PlanContext,
    group: Seq<char>,
    set: PackageSetView,
    action_vars: Map<Seq<char>, Seq<char>>,
)
    ensures
        records_follow_commands(set_plan(ctx, group, set, action_vars).0),
{
    let vars = set_command_vars(set, action_vars);
    let before = match set.run_before {
        Some(c) => seq![shell_step(c, vars)],
        None => Seq::<StepView>::empty(),
    };
    let middle = action_phase(ctx, group, set, vars);
    match set.actions {
        ActionsView::Packages(p) => lemma_follow_packages(ctx, group, set.name, vars, p),
        ActionsView::Scripts(m) => {},
    }
    assert(records_follow_commands(before));
    assert(records_follow_commands(middle.0));
    lemma_follow_concat(before, middle.0);
    if middle.1 is None {
        let env = env_file_steps(set, ctx.action);
        let links = link_steps(set, ctx.action, vars, set.link_files);
        let after = match set.run_after {
            Some(c) => seq![shell_step(c, vars.remove("package_name"@))],
            None => Seq::<StepView>::empty(),
        };
        lemma_follow_links(set, ctx.action, vars, set.link_files);
        lemma_no_records(links);
        assert(records_follow_commands(env));
        assert(records_follow_commands(after));
        lemma_follow_concat(before + middle.0, env);
        lemma_follow_concat(before + middle.0 + env, links);
        lemma_follow_concat(before + middle.0 + env + links, after);
    }
}

proof fn lemma_follow_sets(
    ctx: PlanContext,
    group: Seq<char>,
    sets: Seq<PackageSetView>,
    action_vars: Map<Seq<char>, Seq<char>>,
)
    ensures
        records_follow_commands(sets_plan(ctx, group, sets, action_vars).0),
    decreases sets.len(),
{
    if sets.len() > 0 {
        lemma_follow_sets(ctx, group, sets.drop_last(), action_vars);
        let prev = sets_plan(ctx, group, sets.drop_last(), action_vars);
        if prev.1 is None {
            lemma_follow_set(ctx, group, sets.last(), action_vars);
            lemma_follow_concat(prev.0, set_plan(ctx, group, sets.last(), action_vars).0);
        }
    }
}

proof fn lemma_follow_group(
    ctx: PlanContext,
    g: GroupView,
    set_filter: Option<Seq<char>>,
    action_vars: Map<Seq<char>, Seq<char>>,
)
    ensures
        records_follow_commands(group_plan(ctx, g, set_filter, action_vars).0),
{
    match set_filter {
        None => lemma_follow_sets(ctx, g.name, g.sets, action_vars),
        Some(n) => match first_set_named(g.sets, n) {
            Some(i) => lemma_follow_set(ctx, g.name, g.sets[i], action_vars),
            None => {},
        },
    }
}

proof fn lemma_follow_groups(
    ctx: PlanContext,
    groups: Seq<GroupView>,
    set_filter: Option<Seq<char>>,
    action_vars: Map<Seq<char>, Seq<char>>,
)
    ensures
        records_follow_commands(groups_plan(ctx, groups, set_filter, action_vars).0),
    decreases groups.len(),
{
    if groups.len() > 0 {
        lemma_follow_groups(ctx, groups.drop_last(), set_filter, action_vars);
        let prev = groups_plan(ctx, groups.drop_last(), set_filter, action_vars);
        if prev.1 is None {
            lemma_follow_group(ctx, groups.last(), set_filter, action_vars);
            lemma_follow_concat(prev.0, group_plan(ctx, groups.last(), set_filter, action_vars).0);
        }
    }
}

/// A history record is only ever planned right after a command: performing the steps in
/// order and stopping at the first failure, a record is written only once the command of
/// its package has succeeded.
pub proof fn lemma_records_follow_commands(
    ctx: PlanContext,
    groups: Seq<GroupView>,
    group_filter: Option<Seq<char>>,
    set_filter: Option<Seq<char>>,
    action_vars: Map<Seq<char>, Seq<char>>,
)
    ensures
        records_follow_commands(
            repository_plan(ctx, groups, group_filter, set_filter, action_vars).0,
        ),
{
    match group_filter {
        None => lemma_follow_groups(ctx, groups, set_filter, action_vars),
        Some(n) => match first_group_named(groups, n) {
            Some(i) => lemma_follow_group(ctx, groups[i], set_filter, action_vars),
            None => {},
        },
    }
}

} // verus!
