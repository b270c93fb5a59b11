use bert::backend::Backend;
use bert::homebrew::{Formula, HomebrewPackageType, Versions};
use bert::node::NodePackageManager;
use bert::package_manager::{
    check_exit, is_installed, refresh_first, resolve_identity, summarize, uninstall_commands,
    uninstall_outcome, update_targets, OpError, Operation, UninstallOutcome,
};
use bert::package_spec::PackageSpec;

fn sample_formula(name: &str, versioned: &[&str]) -> Formula {
    Formula {
        name: name.to_string(),
        full_name: name.to_string(),
        desc: None,
        homepage: None,
        versions: Versions { stable: "1.0".to_string() },
        versioned_formulae: versioned.iter().map(|s| s.to_string()).collect(),
        aliases: vec![],
        tap: None,
        license: None,
    }
}

#[test]
fn version_fallback_resolves_without_error() {
    let spec = PackageSpec::parse("pkg@9.9.9", false, false).unwrap();
    let f = sample_formula("pkg", &["pkg@1.0"]);
    assert_eq!(resolve_identity(&spec, Some(&f)).unwrap(), "pkg");
}

#[test]
fn known_version_resolves_to_alias() {
    let spec = PackageSpec::parse("pkg@1.0", false, false).unwrap();
    let f = sample_formula("pkg", &["pkg@1.0"]);
    assert_eq!(resolve_identity(&spec, Some(&f)).unwrap(), "pkg@1.0");
}

#[test]
fn tapped_name_resolves_as_given() {
    let spec = PackageSpec::parse("oven-sh/bun/bun", false, false).unwrap();
    let f = sample_formula("bun", &[]);
    assert_eq!(resolve_identity(&spec, Some(&f)).unwrap(), "oven-sh/bun/bun");
}

#[test]
fn missing_package_is_not_found() {
    let spec = PackageSpec::parse("nope", false, false).unwrap();
    match resolve_identity(&spec, None) {
        Err(OpError::NotFound { name }) => assert_eq!(name, "nope"),
        other => panic!("unexpected {:?}", other),
    }
}

#[test]
fn exit_status_decides() {
    assert!(check_exit(Operation::Install, "wget", true).is_ok());
    match check_exit(Operation::Install, "wget", false) {
        Err(OpError::SubprocessFailure { operation, name }) => {
            assert_eq!(operation, Operation::Install);
            assert_eq!(name, "wget");
        }
        other => panic!("unexpected {:?}", other),
    }
}

#[test]
fn uninstall_of_absent_package_is_noop() {
    let installed = is_installed(true, "");
    assert!(!installed);
    assert!(uninstall_commands("wget", HomebrewPackageType::Formula, installed).is_empty());
    assert_eq!(uninstall_outcome(installed, false), UninstallOutcome::NotInstalled);
    assert!(!is_installed(false, "wget 1.0"));
}

#[test]
fn uninstall_of_present_package_runs_cleanup() {
    let installed = is_installed(true, "wget 1.21.4\n");
    assert!(installed);
    assert_eq!(
        uninstall_commands("wget", HomebrewPackageType::Formula, installed),
        vec![vec!["uninstall".to_string(), "wget".to_string()], vec!["cleanup".to_string(), "wget".to_string()]]
    );
    assert_eq!(uninstall_outcome(true, true), UninstallOutcome::Uninstalled);
    assert_eq!(uninstall_outcome(true, false), UninstallOutcome::Failed);
}

#[test]
fn update_targets_named_or_all() {
    let none: Vec<String> = vec![];
    assert_eq!(update_targets(&none, "git\nwget\n"), vec!["git".to_string(), "wget".to_string()]);
    assert!(refresh_first(&none));
    let named = vec!["jq".to_string()];
    assert_eq!(update_targets(&named, "git\nwget\n"), vec!["jq".to_string()]);
    assert!(!refresh_first(&named));
}

#[test]
fn batch_summary_counts_each_item() {
    let s = summarize(&vec![true, false, true]);
    assert_eq!(s.succeeded, 2);
    assert_eq!(s.failed, 1);
    let e = summarize(&vec![]);
    assert_eq!((e.succeeded, e.failed), (0, 0));
}

#[test]
fn node_backend_needs_runtime_first() {
    assert_eq!(bert::package_manager::missing_runtime(Backend::Node(NodePackageManager::Npm), false), Some("node"));
    assert_eq!(bert::package_manager::missing_runtime(Backend::Node(NodePackageManager::Npm), true), None);
    assert_eq!(bert::package_manager::missing_runtime(Backend::Homebrew(HomebrewPackageType::Formula), false), None);
}
