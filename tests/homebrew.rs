use bert::homebrew::{
    cleanup_args, contains_string, info_args, install_args, installed_check_args, list_versions_args,
    metadata_source, shell_config_file, shellenv_line, uninstall_args, verb_args, Cask, Formula,
    HomebrewPackageType, MetadataSource, VersionNotice, Versions,
};
use bert::platform::Platform;

fn formula(name: &str, stable: &str, versioned: &[&str]) -> Formula {
    Formula {
        name: name.to_string(),
        full_name: name.to_string(),
        desc: None,
        homepage: None,
        versions: Versions { stable: stable.to_string() },
        versioned_formulae: versioned.iter().map(|s| s.to_string()).collect(),
        aliases: vec![],
        tap: None,
        license: None,
    }
}

#[test]
fn missing_version_falls_back_to_latest() {
    let f = formula("pkg", "1.0.0", &["pkg@1.2", "pkg@2.0"]);
    assert_eq!(f.get_install_name(Some("9.9.9")), "pkg");
    assert_eq!(f.version_notice(Some("9.9.9")), VersionNotice::ListAvailable);
}

#[test]
fn known_version_uses_versioned_alias() {
    let f = formula("python", "3.12.1", &["python@3.11", "python@3.10"]);
    assert_eq!(f.get_install_name(Some("3.11")), "python@3.11");
    assert_eq!(f.version_notice(Some("3.11")), VersionNotice::Exact);
    assert_eq!(f.get_install_name(None), "python");
    assert_eq!(f.version_notice(None), VersionNotice::Exact);
}

#[test]
fn fallback_notices_without_aliases() {
    assert_eq!(formula("jq", "1.7", &[]).version_notice(Some("1.6")), VersionNotice::OnlyLatest);
    assert_eq!(formula("jq", "", &[]).version_notice(Some("1.6")), VersionNotice::NoVersionInfo);
    assert_eq!(formula("jq", "1.7", &[]).get_install_name(Some("1.6")), "jq");
}

#[test]
fn alias_versions_are_listed() {
    let f = formula("node", "21.0.0", &["node@18", "node@20", "nodeish"]);
    assert_eq!(f.alias_versions(), vec!["18".to_string(), "20".to_string(), String::new()]);
}

#[test]
fn cask_becomes_formula_shape() {
    let c = Cask {
        token: "firefox".to_string(),
        desc: Some("Web browser".to_string()),
        homepage: None,
        version: "125.0".to_string(),
        tap: Some("homebrew/cask".to_string()),
    };
    let f = Formula::from_cask(c);
    assert_eq!(f.name, "firefox");
    assert_eq!(f.full_name, "firefox");
    assert_eq!(f.versions.stable, "125.0");
    assert_eq!(f.desc.as_deref(), Some("Web browser"));
    assert_eq!(f.tap.as_deref(), Some("homebrew/cask"));
    assert!(f.versioned_formulae.is_empty());
    assert!(f.license.is_none());
}

#[test]
fn contains_string_compares_contents() {
    let v = vec!["a@1".to_string(), "a@2".to_string()];
    assert!(contains_string(&v, &"a@2".to_string()));
    assert!(!contains_string(&v, &"a@3".to_string()));
}

#[test]
fn brew_argument_templates() {
    let opts = vec!["--with-x".to_string()];
    assert_eq!(install_args("wget", HomebrewPackageType::Formula, &opts), vec!["install", "wget", "--with-x"]);
    assert_eq!(install_args("firefox", HomebrewPackageType::Cask, &vec![]), vec!["install", "--cask", "firefox"]);
    assert_eq!(uninstall_args("firefox", HomebrewPackageType::Cask), vec!["uninstall", "--cask", "firefox"]);
    assert_eq!(uninstall_args("wget", HomebrewPackageType::Formula), vec!["uninstall", "wget"]);
    assert_eq!(installed_check_args("wget", HomebrewPackageType::Formula), vec!["list", "--versions", "wget"]);
    assert_eq!(installed_check_args("zoom", HomebrewPackageType::Cask), vec!["list", "--versions", "--cask", "zoom"]);
    assert_eq!(list_versions_args(HomebrewPackageType::Formula), vec!["list", "--versions", "--formula"]);
    assert_eq!(list_versions_args(HomebrewPackageType::Cask), vec!["list", "--versions", "--cask"]);
    assert_eq!(cleanup_args("wget"), vec!["cleanup", "wget"]);
    assert_eq!(info_args("a/b/c"), vec!["info", "--json=v2", "a/b/c"]);
    assert_eq!(verb_args("upgrade", "wget"), vec!["upgrade", "wget"]);
}

#[test]
fn metadata_comes_from_registry_or_tap() {
    match metadata_source("wget", HomebrewPackageType::Formula) {
        MetadataSource::Registry { url } => assert_eq!(url, "https://formulae.brew.sh/api/formula/wget.json"),
        other => panic!("unexpected {:?}", other),
    }
    match metadata_source("zoom", HomebrewPackageType::Cask) {
        MetadataSource::Registry { url } => assert_eq!(url, "https://formulae.brew.sh/api/cask/zoom.json"),
        other => panic!("unexpected {:?}", other),
    }
    match metadata_source("oven-sh/bun/bun", HomebrewPackageType::Formula) {
        MetadataSource::Tap { tap } => assert_eq!(tap, "oven-sh/bun"),
        other => panic!("unexpected {:?}", other),
    }
    assert!(matches!(metadata_source("x/y", HomebrewPackageType::Formula), MetadataSource::InvalidFormat));
}

#[test]
fn shell_setup_choices() {
    assert_eq!(shell_config_file(Some("/bin/zsh")), ".zshrc");
    assert_eq!(shell_config_file(Some("/bin/bash")), ".bashrc");
    assert_eq!(shell_config_file(None), ".bashrc");
    assert!(shellenv_line(Platform::Linux).contains("/home/linuxbrew/.linuxbrew/bin/brew"));
    assert!(shellenv_line(Platform::MacOS).contains("/usr/local/bin/brew"));
}
