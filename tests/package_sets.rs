use mcfg::doc::Doc;
use mcfg::installer::InstallActionKind;
use mcfg::name::{Name, PackageKind, Platform};
use mcfg::packages::{
    PackageBuilder, PackageRepository, PackageSet, PackageSetBuilder, PackageSetGroupBuilder,
};
use serde_yaml::{Mapping, Value};

fn to_value(doc: &Doc) -> Value {
    match doc {
        Doc::Null => Value::Null,
        Doc::Bool(b) => Value::Bool(*b),
        Doc::Text(s) => Value::String(s.clone()),
        Doc::List(items) => Value::Sequence(items.iter().map(to_value).collect()),
        Doc::Mapping(entries) => {
            let mut m = Mapping::new();
            for (k, v) in entries {
                m.insert(Value::String(k.clone()), to_value(v));
            }
            Value::Mapping(m)
        }
    }
}

fn to_doc(value: &Value) -> Doc {
    match value {
        Value::Null => Doc::Null,
        Value::Bool(b) => Doc::Bool(*b),
        Value::Number(n) => Doc::Text(n.to_string()),
        Value::String(s) => Doc::Text(s.clone()),
        Value::Sequence(items) => Doc::List(items.iter().map(to_doc).collect()),
        Value::Mapping(entries) => Doc::Mapping(
            entries
                .iter()
                .map(|(k, v)| (k.as_str().unwrap_or_default().to_string(), to_doc(v)))
                .collect(),
        ),
    }
}

fn round_trip(package_set: &PackageSet) -> PackageSet {
    let package_set_str = serde_yaml::to_string(&to_value(&package_set.to_doc())).unwrap();
    println!("{}", package_set_str);
    let value: Value = serde_yaml::from_str(&package_set_str).unwrap();
    PackageSet::from_doc(&to_doc(&value), String::new()).unwrap()
}

fn name(s: &str) -> Name {
    Name::from_str(s).unwrap()
}

#[test]
fn test_minimal_package_set() {
    let package_set = PackageSetBuilder::named(name("example")).build();
    assert_eq!(package_set.name().as_str(), "example");
    assert_eq!(package_set.path(), "");
    assert_eq!(package_set.description(), &None);
    assert_eq!(package_set.is_optional(), false);
    assert_eq!(package_set.run_before(), &None);
    assert_eq!(package_set.has_actions(), false);
    assert_eq!(package_set.env_file(), &None);
    assert!(package_set.link_files().is_empty());
    assert_eq!(package_set.run_after(), &None);

    let new_package_set = round_trip(&package_set);
    assert!(package_set == new_package_set);
}

#[test]
fn test_package_set_with_packages() {
    let package_set = PackageSetBuilder::named(name("example"))
        .description("an example package set, with package actions")
        .optional()
        .run_before("{{local-bin}}/ex-pre-install")
        .with_package_actions()
        .add_package_action(PackageBuilder::named(name("expackage")).build())
        .unwrap()
        .env_file("example.env")
        .run_after("{{local-bin}}/ex-post-install")
        .build();
    assert_eq!(package_set.name().as_str(), "example");
    assert_eq!(
        package_set.description(),
        &Some("an example package set, with package actions".to_string())
    );
    assert_eq!(package_set.is_optional(), true);
    assert_eq!(
        package_set.run_before(),
        &Some("{{local-bin}}/ex-pre-install".to_string())
    );
    assert_eq!(package_set.has_actions(), true);
    assert_eq!(package_set.packages().unwrap().len(), 1);
    assert_eq!(package_set.env_file(), &Some("example.env".to_string()));
    assert!(package_set.link_files().is_empty());
    assert_eq!(
        package_set.run_after(),
        &Some("{{local-bin}}/ex-post-install".to_string())
    );

    let new_package_set = round_trip(&package_set);
    assert!(package_set == new_package_set);
}

#[test]
fn test_package_set_with_scripts() {
    let package_set = PackageSetBuilder::named(name("example"))
        .description("an example package set, with package actions")
        .optional()
        .run_before("{{local-bin}}/ex-pre-install")
        .with_script_actions()
        .add_install_script_action("{{local-bin}}/ex-installer")
        .unwrap()
        .add_uninstall_script_action("{{local-bin}}/ex-uninstaller")
        .unwrap()
        .env_file("example.env")
        .run_after("{{local-bin}}/ex-post-install")
        .build();
    assert_eq!(package_set.name().as_str(), "example");
    assert_eq!(
        package_set.description(),
        &Some("an example package set, with package actions".to_string())
    );
    assert_eq!(package_set.is_optional(), true);
    assert_eq!(
        package_set.run_before(),
        &Some("{{local-bin}}/ex-pre-install".to_string())
    );
    assert_eq!(package_set.has_actions(), true);
    assert_eq!(package_set.scripts().unwrap().len(), 2);
    assert_eq!(package_set.env_file(), &Some("example.env".to_string()));
    assert!(package_set.link_files().is_empty());
    assert_eq!(
        package_set.run_after(),
        &Some("{{local-bin}}/ex-post-install".to_string())
    );

    let new_package_set = round_trip(&package_set);
    assert!(package_set == new_package_set);
}

#[test]
fn test_package_set_with_a_lot() {
    let package_set = PackageSetBuilder::named(name("gpg"))
        .description("Gnu Privacy Guard")
        .env_var("gpg_home", "{{home}}/.gnupg")
        .package_actions(&[
            PackageBuilder::named(name("gpg")).build(),
            PackageBuilder::named(name("pinentry-gnome3"))
                .for_linux_only()
                .build(),
            PackageBuilder::named(name("pinentry-mac"))
                .for_macos_only()
                .build(),
        ])
        .add_link_file("gpg.conf", "{{gpg_home}}/gpg.conf")
        .add_link_file(
            "gpg-agent-{{platform_os}}.conf",
            "{{gpg_home}}/gpg-agent.conf",
        )
        .run_after("gpg --list-keys")
        .build();

    assert_eq!(package_set.name().as_str(), "gpg");
    assert_eq!(
        package_set.description(),
        &Some("Gnu Privacy Guard".to_string())
    );
    assert_eq!(package_set.has_actions(), true);
    assert_eq!(package_set.packages().unwrap().len(), 3);
    assert_eq!(package_set.link_files().len(), 2);
    assert_eq!(
        package_set.run_after(),
        &Some("gpg --list-keys".to_string())
    );
    let packages = package_set.packages().unwrap();
    assert_eq!(packages[1].platform(Platform::Macos), Platform::Linux);
    assert_eq!(packages[2].platform_constraint(), Some(Platform::Macos));

    let new_package_set = round_trip(&package_set);
    assert!(package_set == new_package_set);
}

#[test]
fn builder_refuses_mixed_actions() {
    let mut builder = PackageSetBuilder::named(name("mixed"));
    builder.with_script_actions();
    assert!(builder
        .add_package_action(PackageBuilder::named(name("p")).build())
        .is_err());
    builder.with_package_actions();
    assert!(builder
        .add_script_action(InstallActionKind::Install, "x")
        .is_err());
}

#[test]
fn package_kinds_from_builder() {
    let p = PackageBuilder::named(name("lux"))
        .using_language_installer(&name("python"))
        .build();
    assert!(p.kind().is_match(&Some(PackageKind::Language(name("python")))));
    let a = PackageBuilder::named(name("firefox"))
        .using_application_installer()
        .build();
    assert!(*a.kind() == PackageKind::Application);
}

#[test]
fn group_display_name_strips_order_prefix() {
    let group = PackageSetGroupBuilder::new_in("/repo/10-system-tools".to_string())
        .unwrap()
        .build();
    assert_eq!(group.name().as_str(), "10-system-tools");
    assert_eq!(group.display_name(), "system tools");
    let plain = PackageSetGroupBuilder::new_in("/repo/dev-tools".to_string())
        .unwrap()
        .build();
    assert_eq!(plain.display_name(), "dev tools");
    let digits_only = PackageSetGroupBuilder::new_in("/repo/2020".to_string())
        .unwrap()
        .build();
    assert_eq!(digits_only.display_name(), "2020");
}

#[test]
fn group_directory_must_be_a_name() {
    assert!(PackageSetGroupBuilder::new_in("/repo/bad name".to_string()).is_err());
}

#[test]
fn repository_lookup_and_reserved_dirs() {
    let mut builder = PackageSetGroupBuilder::new_in("/repo/system".to_string()).unwrap();
    builder.add_package_set(PackageSetBuilder::named(name("gpg")).build());
    let repository = PackageRepository::new("/repo".to_string(), vec![builder.build()]);
    assert!(!repository.is_empty());
    assert!(repository.has_group(&name("system")));
    assert!(!repository.has_group(&name("other")));
    let group = repository.group(&name("system")).unwrap();
    assert!(group.has_package_set(&name("gpg")));
    assert!(group.package_set(&name("vim")).is_none());
    assert!(PackageRepository::is_reserved_dir(".git"));
    assert!(PackageRepository::is_reserved_dir(".local"));
    assert!(!PackageRepository::is_reserved_dir("system"));
    assert_eq!(PackageRepository::default_config_path("/repo"), "/repo/.config");
}
