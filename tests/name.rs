use mcfg::name::{Name, PackageKind, Platform};

#[test]
fn test_valid_names() {
    assert!(Name::from_str("hello_world").is_ok());
    assert!(Name::from_str("hello-world").is_ok());
    assert!(Name::from_str("hello/world").is_ok());
    assert!(Name::from_str("hello_world@1.2").is_ok());
    assert!(Name::from_str("99balloons").is_ok());
    assert!(Name::from_str("9").is_ok());
    assert!(Name::from_str("a").is_ok());
}

#[test]
fn test_invalid_names() {
    assert!(Name::from_str("").is_err());
    assert!(Name::from_str("hello world").is_err());
}

#[test]
fn name_round_trip_keeps_text() {
    for s in ["gpg", "pinentry-mac", "c++", "node@14", "über"] {
        let name = Name::from_str(s).unwrap();
        assert_eq!(name.to_string(), s);
        assert_eq!(name.as_str(), s);
    }
}

#[test]
fn names_with_whitespace_or_symbols_are_rejected() {
    assert!(!Name::is_valid("tab\there"));
    assert!(!Name::is_valid("new\nline"));
    assert!(!Name::is_valid("semi;colon"));
    assert!(!Name::is_valid("quote\""));
    assert!(Name::is_valid("a.b+c-d_e@f/g"));
}

#[test]
fn platform_without_constraint_matches_current() {
    assert!(Platform::Linux.is_match(&None));
    assert!(Platform::Macos.is_match(&None));
    assert!(Platform::is_current(Platform::Linux, &None));
}

#[test]
fn platform_constraint_matches_only_equal() {
    assert!(Platform::Linux.is_match(&Some(Platform::Linux)));
    assert!(!Platform::Linux.is_match(&Some(Platform::Macos)));
    assert!(!Platform::is_current(Platform::Macos, &Some(Platform::Linux)));
    assert_eq!(Platform::resolve(Platform::Linux, &None), Platform::Linux);
    assert_eq!(Platform::resolve(Platform::Linux, &Some(Platform::Macos)), Platform::Macos);
    assert_eq!(Platform::Macos.to_string(), "macos");
}

#[test]
fn package_kind_match_defaults() {
    let ruby = PackageKind::Language(Name::from_str("ruby").unwrap());
    assert!(PackageKind::Default.is_match(&None));
    assert!(!PackageKind::Application.is_match(&None));
    assert!(ruby.is_match(&Some(PackageKind::Language(Name::from_str("ruby").unwrap()))));
    assert!(!ruby.is_match(&Some(PackageKind::Language(Name::from_str("python").unwrap()))));
}
