use mcfg::command::command_outcome;
use mcfg::env::{add_action_vars, add_other_vars, default_vars, vars_to_env_vars, DirTable, HostInfo, PackageDirs};
use mcfg::error::ErrorKind;
use mcfg::installer::{InstallActionKind, Installer, InstallerBuilder, InstallerRegistry};
use mcfg::name::{Name, PackageKind, Platform};
use mcfg::packages::{PackageBuilder, PackageRepository, PackageSet, PackageSetBuilder, PackageSetGroupBuilder};
use mcfg::plan::Step;
use mcfg::strmap::StringMap;

fn name(s: &str) -> Name {
    Name::from_str(s).unwrap()
}

fn no_dirs() -> DirTable {
    DirTable::new()
}

fn homebrew() -> Installer {
    InstallerBuilder::named(name("homebrew"))
        .for_macos_only()
        .for_default_packages()
        .add_install_command("brew install {{package_name}}")
        .add_update_command("brew update {{package_name}}")
        .build()
}

fn repository(group: &str, sets: Vec<PackageSet>) -> PackageRepository {
    let mut builder = PackageSetGroupBuilder::new_in(format!("/repo/{}", group)).unwrap();
    for set in sets {
        builder.add_package_set(set);
    }
    PackageRepository::new("/repo".to_string(), vec![builder.build()])
}

fn shell_scripts(steps: &[Step]) -> Vec<String> {
    steps
        .iter()
        .filter_map(|s| match s {
            Step::Shell(c) => Some(c.script().clone()),
            _ => None,
        })
        .collect()
}

fn records(steps: &[Step]) -> usize {
    steps.iter().filter(|s| matches!(s, Step::Record(_))).count()
}

#[test]
fn one_package_install_runs_one_command_and_records_it() {
    let (registry, _) = InstallerRegistry::from_installers(&vec![homebrew()], Platform::Macos);
    let set = PackageSetBuilder::named(name("tools"))
        .package_actions(&[PackageBuilder::named(name("jq")).build()])
        .build();
    let repo = repository("system", vec![set]);
    let plan = registry.execute(&InstallActionKind::Install, &repo, &None, &None, &StringMap::new(), &no_dirs());
    assert!(plan.outcome.is_ok());
    assert_eq!(shell_scripts(&plan.steps), vec!["brew install jq".to_string()]);
    assert_eq!(records(&plan.steps), 1);
    match &plan.steps[1] {
        Step::Record(r) => {
            assert_eq!(r.package_set_group_name().as_str(), "system");
            assert_eq!(r.package_set_name().as_str(), "tools");
            assert_eq!(r.package_name().as_str(), "jq");
            assert_eq!(r.installer_name().as_str(), "homebrew");
            assert_eq!(r.date_time(), &None);
        }
        _ => panic!("expected a record after the command"),
    }
}

#[test]
fn scripts_without_the_action_do_nothing() {
    let (registry, _) = InstallerRegistry::from_installers(&vec![homebrew()], Platform::Macos);
    let set = PackageSetBuilder::named(name("scripted"))
        .with_script_actions()
        .add_uninstall_script_action("rm -rf ~/.thing")
        .unwrap()
        .build();
    let repo = repository("system", vec![set]);
    let plan = registry.execute(&InstallActionKind::Install, &repo, &None, &None, &StringMap::new(), &no_dirs());
    assert!(plan.outcome.is_ok());
    assert!(plan.steps.is_empty());
}

#[test]
fn unknown_set_filter_is_skipped() {
    let (registry, _) = InstallerRegistry::from_installers(&vec![homebrew()], Platform::Macos);
    let set = PackageSetBuilder::named(name("tools"))
        .package_actions(&[PackageBuilder::named(name("jq")).build()])
        .build();
    let mut g1 = PackageSetGroupBuilder::new_in("/repo/g1".to_string()).unwrap();
    g1.add_package_set(set.clone());
    let mut g2 = PackageSetGroupBuilder::new_in("/repo/g2".to_string()).unwrap();
    g2.add_package_set(set);
    let repo = PackageRepository::new("/repo".to_string(), vec![g1.build(), g2.build()]);
    let plan = registry.execute(
        &InstallActionKind::Install,
        &repo,
        &Some(name("g1")),
        &Some(name("nonexistent")),
        &StringMap::new(),
        &no_dirs(),
    );
    assert!(plan.outcome.is_ok());
    assert_eq!(records(&plan.steps), 0);
    assert!(plan.steps.is_empty());
    assert_eq!(plan.skipped.len(), 1);
    assert_eq!(plan.skipped[0].as_str(), "nonexistent");
}

#[test]
fn unknown_group_filter_is_skipped() {
    let (registry, _) = InstallerRegistry::from_installers(&vec![homebrew()], Platform::Macos);
    let repo = repository("system", vec![PackageSetBuilder::named(name("tools")).build()]);
    let plan = registry.execute(&InstallActionKind::Install, &repo, &Some(name("nope")), &None, &StringMap::new(), &no_dirs());
    assert!(plan.outcome.is_ok());
    assert!(plan.steps.is_empty());
    assert_eq!(plan.skipped.len(), 1);
}

#[test]
fn duplicate_registry_keys_keep_the_later_installer() {
    let first = homebrew();
    let second = InstallerBuilder::named(name("brew2"))
        .for_default_packages()
        .add_install_command("brew2 install {{package_name}}")
        .build();
    let (registry, replaced) = InstallerRegistry::from_installers(&vec![first, second], Platform::Macos);
    assert_eq!(registry.len(), 1);
    assert_eq!(replaced.len(), 1);
    assert_eq!(replaced[0].as_str(), "brew2");
    let found = registry.installer_for(Platform::Macos, &PackageKind::Default).unwrap();
    assert_eq!(found.name().as_str(), "brew2");
}

#[test]
fn missing_installer_aborts_but_keeps_earlier_records() {
    let (registry, _) = InstallerRegistry::from_installers(&vec![homebrew()], Platform::Macos);
    let set = PackageSetBuilder::named(name("langs"))
        .package_actions(&[
            PackageBuilder::named(name("jq")).build(),
            PackageBuilder::named(name("rails"))
                .using_language_installer(&name("ruby"))
                .build(),
            PackageBuilder::named(name("wget")).build(),
        ])
        .run_after("echo done")
        .build();
    let repo = repository("system", vec![set]);
    let plan = registry.execute(&InstallActionKind::Install, &repo, &None, &None, &StringMap::new(), &no_dirs());
    match &plan.outcome {
        Err(ErrorKind::NoInstallerForKind(PackageKind::Language(l))) => assert_eq!(l.as_str(), "ruby"),
        _ => panic!("expected a missing installer"),
    }
    assert_eq!(shell_scripts(&plan.steps), vec!["brew install jq".to_string()]);
    assert_eq!(records(&plan.steps), 1);
}

#[test]
fn load_discards_other_platforms_and_missing_guards() {
    let linux_only = InstallerBuilder::named(name("apt"))
        .for_linux_only()
        .add_install_command("apt install {{package_name}}")
        .build();
    let guarded = InstallerBuilder::named(name("cargo"))
        .for_language_packages(&name("rust"))
        .if_exists("/nonexistent/cargo")
        .build();
    let loaded = InstallerRegistry::load(&vec![homebrew(), linux_only, guarded], &vec![true, true, false], Platform::Macos);
    assert_eq!(loaded.registry.len(), 1);
    assert_eq!(loaded.discarded.len(), 2);
    assert!(loaded.replaced.is_empty());
    assert!(!loaded.registry.is_empty());
}

#[test]
fn set_phases_run_in_order_with_templated_vars() {
    let (registry, _) = InstallerRegistry::from_installers(&vec![homebrew()], Platform::Macos);
    let set = PackageSetBuilder::named(name("gpg"))
        .path("/repo/system/gpg.yml".to_string())
        .env_var("gpg_home", "{{home}}/.gnupg")
        .run_before("echo \"{{gpg_home}}\"")
        .package_actions(&[PackageBuilder::named(name("gnupg")).build()])
        .env_file("gpg.env")
        .add_link_file("gpg.conf", "{{gpg_home}}/gpg.conf")
        .run_after("echo {{package_set_name}} {{command_action}}")
        .build();
    let repo = repository("system", vec![set]);
    let mut defaults = StringMap::new();
    defaults.insert("home".to_string(), "/home/me".to_string());
    let plan = registry.execute(&InstallActionKind::Install, &repo, &None, &None, &defaults, &no_dirs());
    assert!(plan.outcome.is_ok());
    assert_eq!(
        shell_scripts(&plan.steps),
        vec![
            "echo \\\"/home/me/.gnupg\\\"".to_string(),
            "brew install gnupg".to_string(),
            "echo gpg install".to_string(),
        ]
    );
    let links: Vec<(String, String)> = plan
        .steps
        .iter()
        .filter_map(|s| match s {
            Step::Link { link, target } => Some((link.clone(), target.clone())),
            _ => None,
        })
        .collect();
    assert_eq!(
        links,
        vec![
            ("/repo/system/gpg/gpg.env".to_string(), "gpg.env".to_string()),
            ("/repo/system/gpg.yml/gpg.conf".to_string(), "/home/me/.gnupg/gpg.conf".to_string()),
        ]
    );
}

#[test]
fn update_unlinks_and_uninstall_leaves_links() {
    let (registry, _) = InstallerRegistry::from_installers(&vec![homebrew()], Platform::Macos);
    let set = PackageSetBuilder::named(name("dots"))
        .path("/repo/system/dots.yml".to_string())
        .add_link_file("vimrc", "/home/me/.vimrc")
        .build();
    let repo = repository("system", vec![set]);
    let update = registry.execute(&InstallActionKind::Update, &repo, &None, &None, &StringMap::new(), &no_dirs());
    assert!(matches!(&update.steps[..], [Step::Unlink { .. }]));
    let uninstall = registry.execute(&InstallActionKind::Uninstall, &repo, &None, &None, &StringMap::new(), &no_dirs());
    assert!(uninstall.steps.is_empty());
}

#[test]
fn package_vars_include_directories() {
    let (registry, _) = InstallerRegistry::from_installers(
        &vec![InstallerBuilder::named(name("echo"))
            .add_install_command("echo {{package_config_path}} {{package_name}}")
            .build()],
        Platform::Linux,
    );
    let set = PackageSetBuilder::named(name("s"))
        .package_actions(&[PackageBuilder::named(name("vim")).build()])
        .build();
    let repo = repository("g", vec![set]);
    let mut dirs = DirTable::new();
    dirs.insert(
        &name("vim"),
        PackageDirs {
            config: Some("/home/me/.config/vim".to_string()),
            data_local: None,
            log: Some("/home/me/.local/share/vim/logs".to_string()),
        },
    );
    let plan = registry.execute(&InstallActionKind::Install, &repo, &None, &None, &StringMap::new(), &dirs);
    assert_eq!(shell_scripts(&plan.steps), vec!["echo /home/me/.config/vim vim".to_string()]);
    match &plan.steps[0] {
        Step::Shell(c) => {
            assert_eq!(c.vars().get("package_log_path").unwrap(), "/home/me/.local/share/vim/logs");
            assert!(!c.vars().contains_key("package_data_local_path"));
        }
        _ => panic!("expected a command"),
    }
}

#[test]
fn test_replace_variables_in_variables() {
    let host = HostInfo {
        home: "/home/me".to_string(),
        log_level: "info".to_string(),
        shell: "bash".to_string(),
        download_dir: None,
        platform: Platform::Linux,
        family: "unix".to_string(),
        os: "linux".to_string(),
        arch: "x86_64".to_string(),
        repo_config_path: "/repo/.config".to_string(),
        repo_local_path: "/repo/.local".to_string(),
    };
    let replacements = default_vars(&host);
    let mut test_vars = StringMap::new();
    test_vars.insert(
        "platform-path".to_string(),
        "{{home}}/x-data/{{platform_os}}/{{platform_arch}}".to_string(),
    );
    test_vars.insert("for-{{platform_os}}".to_string(), "this is my platform".to_string());
    let new_replacements = add_other_vars(&replacements, &test_vars);
    assert_eq!(
        new_replacements.get("platform-path").unwrap(),
        &format!("{}/x-data/{}/{}", "/home/me", "linux", "x86_64")
    );
    assert_eq!(
        new_replacements.get(&format!("for-{}", "linux")).unwrap(),
        "this is my platform"
    );
    assert_eq!(new_replacements.get("platform").unwrap(), "linux");
}

#[test]
fn action_vars_and_env_projection() {
    let vars = add_action_vars(&InstallActionKind::LinkFiles, &StringMap::new());
    assert_eq!(vars.get("command_action").unwrap(), "link");
    let env = vars_to_env_vars(&vars, "MCFG", None, "/repo/.local");
    assert_eq!(env, vec![("MCFG_COMMAND_ACTION".to_string(), "link".to_string())]);
    let with_path = vars_to_env_vars(&vars, "MCFG", Some("/usr/bin:/bin"), "/repo/.local");
    assert_eq!(with_path.len(), 2);
    assert_eq!(
        with_path[1],
        ("PATH".to_string(), "/usr/bin:/bin:/repo/.local/bin".to_string())
    );
}

#[test]
fn command_outcomes_are_classified() {
    assert!(command_outcome("bash", true, true, Some(0)).is_ok());
    match command_outcome("bash", true, false, Some(3)) {
        Err(ErrorKind::CommandExecutionFailed(p, c)) => {
            assert_eq!(p, "bash");
            assert_eq!(c, Some(3));
        }
        _ => panic!("expected a failure"),
    }
    assert!(matches!(
        command_outcome("nosuchshell", false, false, None),
        Err(ErrorKind::CommandExecutionFailed(_, None))
    ));
}

#[test]
fn package_action_checks_platform_and_kind() {
    let brew = homebrew();
    let vars = StringMap::new();
    let jq = PackageBuilder::named(name("jq")).build();
    let cmd = brew
        .package_action(&InstallActionKind::Install, &jq, &vars, Platform::Macos)
        .unwrap()
        .unwrap();
    assert_eq!(cmd.script(), "brew install package_name");
    assert!(brew
        .package_action(&InstallActionKind::Uninstall, &jq, &vars, Platform::Macos)
        .unwrap()
        .is_none());
    assert!(brew
        .package_action(&InstallActionKind::Install, &jq, &vars, Platform::Linux)
        .unwrap()
        .is_none());
    let app = PackageBuilder::named(name("firefox"))
        .using_application_installer()
        .build();
    match brew.package_action(&InstallActionKind::Install, &app, &vars, Platform::Macos) {
        Err(ErrorKind::WrongInstallerForKind(k)) => assert!(k == PackageKind::Default),
        _ => panic!("expected a kind mismatch"),
    }
}

#[test]
fn host_directories_cover_every_package() {
    let set = PackageSetBuilder::named(name("tools"))
        .package_actions(&[
            PackageBuilder::named(name("jq")).build(),
            PackageBuilder::named(name("vim")).build(),
        ])
        .build();
    let repo = repository("system", vec![set]);
    let table = DirTable::from_host(&repo);
    for n in ["jq", "vim"] {
        let dirs = table.get(n).unwrap();
        if let Some(c) = &dirs.config {
            assert!(c.ends_with(n));
        }
        if let Some(d) = &dirs.data_local {
            assert!(d.ends_with(n));
        }
    }
    assert!(table.get("wget").is_none());
}
