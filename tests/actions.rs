use mcfg::actions::{HistoryAction, InstallAction, ListAction, ManageAction, ManageStep};
use mcfg::history::{history, InstalledPackage};
use mcfg::host::{classify_group_entry, user_editor, user_shell, Environment, SetEntry, SystemEditor};
use mcfg::installer::{InstallActionKind, InstallerBuilder, InstallerRegistry};
use mcfg::name::{Name, Platform};
use mcfg::packages::{PackageRepository, PackageSetBuilder, PackageSetGroupBuilder};
use mcfg::plan::Step;
use mcfg::strmap::StringMap;

fn name(s: &str) -> Name {
    Name::from_str(s).unwrap()
}

#[test]
fn install_action_constructors() {
    let a = InstallAction::update_action(Some(name("g")), None);
    assert_eq!(a.kind, InstallActionKind::Update);
    assert_eq!(a.group.unwrap().as_str(), "g");
    assert!(a.package_set.is_none());
    assert_eq!(InstallAction::link_files_action(None, None).kind, InstallActionKind::LinkFiles);
    assert_eq!(HistoryAction::new(None).limit, 0);
    assert_eq!(HistoryAction::new(Some(7)).limit, 7);
    assert!(ListAction::new_action(None).group.is_none());
}

#[test]
fn manage_paths_and_decisions() {
    let add = ManageAction::add_action(name("system"), name("gpg"), true);
    assert_eq!(add.make_package_set_path("/repo", true), "/repo/system/gpg.yml");
    assert_eq!(add.make_package_set_path("/repo", false), "/repo/system/gpg/package-set.yml");
    match add.decide("/repo", false, false) {
        ManageStep::CreateAndEdit { path, content } => {
            assert_eq!(path, "/repo/system/gpg.yml");
            assert_eq!(
                content,
                "---\nname: gpg\ndescription: my new gpg package set.\nactions:\n  packages:\n    - name: gpg"
            );
        }
        other => panic!("unexpected {:?}", other),
    }
    assert!(matches!(add.decide("/repo", true, false), ManageStep::AlreadyExists));
    let edit = ManageAction::edit_action(name("system"), name("gpg"));
    assert!(matches!(edit.decide("/repo", true, true), ManageStep::Ambiguous));
    assert!(matches!(edit.decide("/repo", false, false), ManageStep::Missing));
    match edit.decide("/repo", false, true) {
        ManageStep::Edit { path } => assert_eq!(path, "/repo/system/gpg/package-set.yml"),
        other => panic!("unexpected {:?}", other),
    }
    let remove = ManageAction::remove_action(name("system"), name("gpg"));
    match remove.decide("/repo", true, true) {
        ManageStep::Remove { path } => assert_eq!(path, "/repo/system/gpg.yml"),
        other => panic!("unexpected {:?}", other),
    }
}

#[test]
fn shell_and_editor_choices() {
    assert_eq!(user_shell(None), "bash");
    assert_eq!(user_shell(Some("zsh".to_string())), "zsh");
    assert_eq!(user_editor(None, None), "vi");
    assert_eq!(user_editor(None, Some("nano".to_string())), "nano");
    assert_eq!(user_editor(Some("code".to_string()), Some("nano".to_string())), "code");
    assert_eq!(SystemEditor::from_settings(None, None).command(), "vi");
}

#[test]
fn environment_paths() {
    let env = Environment::with_roots("/work", "cfg", "/var/log/mcfg", "data");
    assert_eq!(env.config_path(), "/work/cfg");
    assert_eq!(env.repository_path(), "/work/data/repository");
    assert_eq!(env.installer_file_path(), "/work/cfg/installers.yml");
    assert_eq!(env.log_file_path(), "/var/log/mcfg/install-log.sql");
    assert!(Environment::is_initialized(true, true));
    assert!(!Environment::is_initialized(true, false));
}

#[test]
fn group_entries_are_classified() {
    assert_eq!(classify_group_entry("gpg.yml", true, false, false), SetEntry::File);
    assert_eq!(classify_group_entry("notes.txt", true, false, false), SetEntry::Ignored);
    assert_eq!(classify_group_entry("vim", false, true, true), SetEntry::Directory);
    assert_eq!(classify_group_entry("empty", false, true, false), SetEntry::Ignored);
    assert_eq!(classify_group_entry(".yml", true, false, false), SetEntry::Ignored);
    assert_eq!(classify_group_entry("a.yml", true, false, false), SetEntry::File);
}

fn record(n: &str, t: i64) -> InstalledPackage {
    InstalledPackage::written_at(t, name("g"), name("s"), name(n), name("brew"))
}

#[test]
fn history_is_most_recent_first_and_limited() {
    let written = vec![record("a", 1), record("b", 2), record("c", 3)];
    let all = history(&written, 0);
    let names: Vec<&str> = all.iter().map(|r| r.package_name().as_str()).collect();
    assert_eq!(names, vec!["c", "b", "a"]);
    let shuffled = vec![record("a", 5), record("b", 9), record("c", 1), record("d", 9)];
    let sorted = history(&shuffled, 3);
    let names: Vec<&str> = sorted.iter().map(|r| r.package_name().as_str()).collect();
    assert_eq!(names, vec!["d", "b", "a"]);
    let two = history(&written, 2);
    assert_eq!(two.len(), 2);
    assert_eq!(two[0].date_time(), &Some(3));
    assert_eq!(history(&written, 10).len(), 3);
    assert!(history(&Vec::new(), 5).is_empty());
}

#[test]
fn update_self_runs_only_installers_that_can() {
    let brew = InstallerBuilder::named(name("homebrew"))
        .update_self_command("brew upgrade")
        .build();
    let apt = InstallerBuilder::named(name("apt"))
        .for_application_packages()
        .build();
    let (registry, _) = InstallerRegistry::from_installers(&vec![brew, apt], Platform::Linux);
    let steps = registry.update_self(&StringMap::new());
    assert_eq!(steps.len(), 1);
    match &steps[0] {
        Step::Shell(c) => {
            assert_eq!(c.script(), "brew upgrade");
            assert_eq!(c.vars().get("command_action").unwrap(), "update");
        }
        _ => panic!("expected a command"),
    }
}

#[test]
fn sorted_insertion_orders_sets_and_groups() {
    let mut group = PackageSetGroupBuilder::new_in("/repo/system".to_string()).unwrap();
    for n in ["vim", "gpg", "zsh", "git"] {
        group.insert_package_set_sorted(PackageSetBuilder::named(name(n)).build());
    }
    let built = group.build();
    let names: Vec<&str> = built.package_sets().iter().map(|s| s.name().as_str()).collect();
    assert_eq!(names, vec!["git", "gpg", "vim", "zsh"]);
    let mut repo = PackageRepository::new("/repo".to_string(), Vec::new());
    for n in ["20-apps", "10-system", "30-dev"] {
        repo.insert_group_sorted(
            PackageSetGroupBuilder::new_in(format!("/repo/{}", n)).unwrap().build(),
        );
    }
    let groups: Vec<&str> = repo.groups().iter().map(|g| g.name().as_str()).collect();
    assert_eq!(groups, vec!["10-system", "20-apps", "30-dev"]);
}
