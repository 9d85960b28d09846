use mcfg::actions::{ManageAction, ManageStep};
use mcfg::doc::{installers_from_doc, Doc};
use mcfg::error::ErrorKind;
use mcfg::installer::{InstallActionKind, Installer, InstallerBuilder};
use mcfg::name::{Name, PackageKind, Platform};
use mcfg::packages::{Package, PackageSet};
use serde_yaml::Value;

fn to_doc(value: &Value) -> Doc {
    match value {
        Value::Null => Doc::Null,
        Value::Bool(b) => Doc::Bool(*b),
        Value::Number(n) => Doc::Text(n.to_string()),
        Value::String(s) => Doc::Text(s.clone()),
        Value::Sequence(items) => Doc::List(items.iter().map(to_doc).collect()),
        Value::Mapping(entries) => Doc::Mapping(
            entries
                .iter()
                .map(|(k, v)| (k.as_str().unwrap_or_default().to_string(), to_doc(v)))
                .collect(),
        ),
    }
}

fn to_value(doc: &Doc) -> Value {
    match doc {
        Doc::Null => Value::Null,
        Doc::Bool(b) => Value::Bool(*b),
        Doc::Text(s) => Value::String(s.clone()),
        Doc::List(items) => Value::Sequence(items.iter().map(to_value).collect()),
        Doc::Mapping(entries) => {
            let mut m = serde_yaml::Mapping::new();
            for (k, v) in entries {
                m.insert(Value::String(k.clone()), to_value(v));
            }
            Value::Mapping(m)
        }
    }
}

fn doc(text: &str) -> Doc {
    to_doc(&serde_yaml::from_str::<Value>(text).unwrap())
}

#[test]
fn test_parse() {
    let installers_str = r##"
        - name: homebrew
          platform: macos
          kind: default
          commands:
            install: "brew install {{package}}"
            update: "brew update {{package}}"
"##;
    let installers = installers_from_doc(&doc(installers_str)).unwrap();
    assert_eq!(installers.len(), 1);
    let installer = installers.first().unwrap();
    assert_eq!(installer.name().as_str(), "homebrew");
    assert_eq!(installer.platform(Platform::Linux), Platform::Macos);
    assert!(installer.kind() == PackageKind::Default);
    assert_eq!(installer.commands().len(), 2);
}

#[test]
fn test_parse_package_set_with_packages() {
    let config_str = r##"
        name: lux
        env-file: sample.env
        actions:
          packages:
            - name: lux
              kind:
                language: python
        link-files:
          set-lux: "{{local-bin}}/set-lux"
        "##;

    let package_set = PackageSet::from_doc(&doc(config_str), String::new()).unwrap();
    assert_eq!(package_set.name().as_str(), "lux");
    assert_eq!(package_set.env_file(), &Some("sample.env".to_string()));
    assert_eq!(package_set.packages().unwrap().len(), 1);
    assert!(package_set.scripts().is_none());
    assert_eq!(package_set.link_files().len(), 1);
    let python = PackageKind::Language(Name::from_str("python").unwrap());
    assert!(*package_set.packages().unwrap()[0].kind() == python);
}

#[test]
fn test_parse_package_set_with_scripts() {
    let config_str = r##"
        name: lux
        env-file: sample.env
        actions:
          scripts:
            install: install-lux
            uninstall: uninstall-lux
        link-files:
          set-lux: "{{local-bin}}/set-lux"
        "##;

    let package_set = PackageSet::from_doc(&doc(config_str), String::new()).unwrap();
    assert_eq!(package_set.name().as_str(), "lux");
    assert_eq!(package_set.env_file(), &Some("sample.env".to_string()));
    assert!(package_set.packages().is_none());
    assert_eq!(package_set.scripts().unwrap().len(), 2);
    assert_eq!(
        package_set.scripts().unwrap().get(&InstallActionKind::Uninstall).unwrap(),
        "uninstall-lux"
    );
    assert_eq!(package_set.link_files().len(), 1);
}

#[test]
fn unknown_fields_are_rejected() {
    let typo = "name: lux\nrun-befor: echo hi\n";
    match PackageSet::from_doc(&doc(typo), String::new()) {
        Err(ErrorKind::UnknownField(f)) => assert_eq!(f, "run-befor"),
        other => panic!("unexpected {:?}", other.map(|s| s.name().to_string())),
    }
    assert!(Package::from_doc(&doc("name: jq\nversion: 1\n")).is_err());
    assert!(installers_from_doc(&doc("- name: x\n  kind: default\n  extra: 1\n")).is_err());
}

#[test]
fn invalid_values_are_rejected() {
    assert!(PackageSet::from_doc(&doc("description: no name\n"), String::new()).is_err());
    assert!(PackageSet::from_doc(&doc("name: bad name\n"), String::new()).is_err());
    assert!(PackageSet::from_doc(&doc("name: x\nplatform: windows\n"), String::new()).is_err());
    assert!(PackageSet::from_doc(&doc("name: x\noptional: maybe\n"), String::new()).is_err());
    assert!(PackageSet::from_doc(&doc("name: x\nactions:\n  other: []\n"), String::new()).is_err());
    assert!(installers_from_doc(&doc("- name: x\n")).is_err());
    assert!(installers_from_doc(&doc("- name: x\n  kind: default\n  commands:\n    reinstall: y\n")).is_err());
    assert!(installers_from_doc(&doc("name: x\n")).is_err());
}

#[test]
fn full_package_set_document() {
    let text = r##"
name: gpg
description: Gnu Privacy Guard
platform: linux
optional: true
env-vars:
  gpg_home: "{{home}}/.gnupg"
run-before: echo before
actions:
  packages:
    - name: gpg
    - name: pinentry-mac
      platform: macos
      kind: application
env-file: gpg.env
link-files:
  gpg.conf: "{{gpg_home}}/gpg.conf"
run-after: gpg --list-keys
"##;
    let set = PackageSet::from_doc(&doc(text), "/repo/system/gpg.yml".to_string()).unwrap();
    assert_eq!(set.path(), "/repo/system/gpg.yml");
    assert_eq!(set.description(), &Some("Gnu Privacy Guard".to_string()));
    assert_eq!(set.platform(Platform::Macos), Platform::Linux);
    assert!(set.is_optional());
    assert_eq!(set.env_vars().get("gpg_home").unwrap(), "{{home}}/.gnupg");
    assert_eq!(set.run_before(), &Some("echo before".to_string()));
    let packages = set.packages().unwrap();
    assert_eq!(packages.len(), 2);
    assert_eq!(packages[1].platform_constraint(), Some(Platform::Macos));
    assert!(*packages[1].kind() == PackageKind::Application);
    assert_eq!(set.run_after(), &Some("gpg --list-keys".to_string()));
}

#[test]
fn test_write() {
    let installers = vec![InstallerBuilder::named(Name::from_str("homebrew").unwrap())
        .for_macos_only()
        .for_default_packages()
        .add_install_command("brew install {{package_name}}")
        .add_update_command("brew update {{package_name}}")
        .update_self_command("brew upgrade")
        .build()];

    let list = Doc::List(installers.iter().map(|i| i.to_doc()).collect());
    let installers_str = serde_yaml::to_string(&to_value(&list)).unwrap();
    println!("{:?}", installers_str);

    let new_installers: Vec<Installer> = installers_from_doc(&doc(&installers_str)).unwrap();
    assert_eq!(installers, new_installers);
}

#[test]
fn added_package_set_text_parses() {
    let add = ManageAction::add_action(Name::from_str("system").unwrap(), Name::from_str("gpg").unwrap(), true);
    match add.decide("/repo", false, false) {
        ManageStep::CreateAndEdit { content, .. } => {
            let set = PackageSet::from_doc(&doc(&content), "/repo/system/gpg.yml".to_string()).unwrap();
            assert_eq!(set.name().as_str(), "gpg");
            assert_eq!(set.description(), &Some("my new gpg package set.".to_string()));
            let packages = set.packages().unwrap();
            assert_eq!(packages.len(), 1);
            assert_eq!(packages[0].name().as_str(), "gpg");
        }
        other => panic!("unexpected {:?}", other),
    }
}
