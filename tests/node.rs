use bert::node::{registry_url, NodeManager, NodePackageManager};

#[test]
fn manager_commands() {
    assert_eq!(NodePackageManager::Npm.command(), "npm");
    assert_eq!(NodePackageManager::Yarn.command(), "yarn");
    assert_eq!(NodePackageManager::Pnpm.command(), "pnpm");
    assert_eq!(NodePackageManager::Bun.command(), "bun");
}

#[test]
fn manager_argument_templates() {
    assert_eq!(NodePackageManager::Npm.install_args(), vec!["install", "-g"]);
    assert_eq!(NodePackageManager::Yarn.install_args(), vec!["global", "add"]);
    assert_eq!(NodePackageManager::Pnpm.install_args(), vec!["add", "-g"]);
    assert_eq!(NodePackageManager::Bun.install_args(), vec!["install", "-g"]);
    assert_eq!(NodePackageManager::Npm.uninstall_args(), vec!["uninstall", "-g"]);
    assert_eq!(NodePackageManager::Yarn.uninstall_args(), vec!["global", "remove"]);
    assert_eq!(NodePackageManager::Bun.uninstall_args(), vec!["remove", "-g"]);
    assert_eq!(NodePackageManager::Npm.list_args(), vec!["list", "-g", "--depth=0"]);
    assert_eq!(NodePackageManager::Yarn.list_args(), vec!["global", "list"]);
    assert_eq!(NodePackageManager::Npm.update_args(), vec!["update", "-g"]);
    assert_eq!(NodePackageManager::Yarn.update_args(), vec!["global", "upgrade"]);
}

#[test]
fn manager_from_name_ignores_case() {
    assert_eq!(NodePackageManager::from_str("NPM").unwrap(), NodePackageManager::Npm);
    assert_eq!(NodePackageManager::from_str("Yarn").unwrap(), NodePackageManager::Yarn);
    assert_eq!(NodePackageManager::from_str("pnpm").unwrap(), NodePackageManager::Pnpm);
    assert_eq!(NodePackageManager::from_str("BUN").unwrap(), NodePackageManager::Bun);
}

#[test]
fn manager_from_unknown_name_fails() {
    let e = NodePackageManager::from_str("Cargo").unwrap_err();
    assert_eq!(e.name, "Cargo");
    assert_eq!(e.message(), "Invalid package manager: Cargo. Valid options are: npm, yarn, pnpm, bun");
    assert_eq!(NodePackageManager::from_lowercase_name("Npm"), None);
}

#[test]
fn node_install_command_pins_version() {
    let m = NodeManager::new(NodePackageManager::Yarn);
    assert_eq!(m.install_command("typescript", Some("5.4.0")), vec!["global", "add", "typescript@5.4.0"]);
    assert_eq!(m.install_command("typescript", None), vec!["global", "add", "typescript"]);
    assert_eq!(m.program(), "yarn");
}

#[test]
fn node_other_commands() {
    let m = NodeManager::new(NodePackageManager::Npm);
    assert_eq!(m.uninstall_command("eslint"), vec!["uninstall", "-g", "eslint"]);
    assert_eq!(m.update_command(&vec!["a".to_string(), "b".to_string()]), vec!["update", "-g", "a", "b"]);
    assert_eq!(m.update_command(&vec![]), vec!["update", "-g"]);
    assert_eq!(m.list_command(), vec!["list", "-g", "--depth=0"]);
}

#[test]
fn node_listing_skips_location_line() {
    let out = "/usr/lib\n├── npm@10.2.0\n└── eslint@9.0.0\n";
    assert_eq!(
        NodeManager::listed_packages(out),
        vec!["├── npm@10.2.0".to_string(), "└── eslint@9.0.0".to_string()]
    );
    assert!(NodeManager::listed_packages("").is_empty());
}

#[test]
fn node_registry_document() {
    assert_eq!(registry_url("left-pad"), "https://registry.npmjs.org/left-pad");
}
