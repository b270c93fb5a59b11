use bert::package_spec::{classify_name, parse_package_spec, NameForm, PackageSpec, SpecError};

#[test]
fn spec_splits_at_first_at_sign() {
    assert_eq!(parse_package_spec("node@18"), ("node", Some("18")));
    assert_eq!(parse_package_spec("a@b@c"), ("a", Some("b@c")));
    assert_eq!(parse_package_spec("@x"), ("", Some("x")));
    assert_eq!(parse_package_spec("python@"), ("python", Some("")));
}

#[test]
fn spec_without_at_sign_has_no_version() {
    assert_eq!(parse_package_spec("wget"), ("wget", None));
    assert_eq!(parse_package_spec(""), ("", None));
}

#[test]
fn qualified_name_gives_tap() {
    match classify_name("oven-sh/bun/bun") {
        NameForm::Tapped { tap, formula } => {
            assert_eq!(tap, "oven-sh/bun");
            assert_eq!(formula, "bun");
        }
        other => panic!("unexpected {:?}", other),
    }
    assert!(matches!(classify_name("wget"), NameForm::Plain));
}

#[test]
fn wrong_slash_counts_are_invalid() {
    assert!(matches!(classify_name("owner/name"), NameForm::Invalid));
    assert!(matches!(classify_name("a/b/c/d"), NameForm::Invalid));
    assert!(matches!(classify_name("/"), NameForm::Invalid));
}

#[test]
fn package_spec_parse_reads_all_parts() {
    let p = PackageSpec::parse("oven-sh/bun/bun@1.1", false, false).unwrap();
    assert_eq!(p.name, "oven-sh/bun/bun");
    assert_eq!(p.version.as_deref(), Some("1.1"));
    assert_eq!(p.tap_qualifier.as_deref(), Some("oven-sh/bun"));
    let q = PackageSpec::parse("firefox", true, false).unwrap();
    assert_eq!(q.name, "firefox");
    assert_eq!(q.version, None);
    assert_eq!(q.tap_qualifier, None);
    assert!(q.is_cask);
    assert!(!q.is_node);
}

#[test]
fn package_spec_parse_rejects_bad_format() {
    assert_eq!(PackageSpec::parse("owner/name@2", false, false).unwrap_err(), SpecError::InvalidFormat);
    assert_eq!(PackageSpec::parse("a/b/c/d", false, true).unwrap_err(), SpecError::InvalidFormat);
}
