use bert::config::Config;
use bert::node::NodePackageManager;
use bert::platform::Platform;

#[test]
fn platform_from_target_name() {
    assert_eq!(Platform::current("windows"), Platform::Windows);
    assert_eq!(Platform::current("macos"), Platform::MacOS);
    assert_eq!(Platform::current("linux"), Platform::Linux);
    assert_eq!(Platform::current("freebsd"), Platform::Linux);
}

#[test]
fn platform_program_names() {
    assert_eq!(Platform::Windows.brew_program(), "brew.exe");
    assert_eq!(Platform::Linux.brew_program(), "brew");
    assert_eq!(Platform::Windows.executable_name("git"), "git.exe");
    assert_eq!(Platform::Windows.executable_name("git.exe"), "git.exe");
    assert_eq!(Platform::MacOS.executable_name("git"), "git");
}

#[test]
fn config_defaults_to_npm() {
    let c = Config::default();
    assert_eq!(c.node_package_manager, "npm");
    assert!(c.backup_dir.is_none());
    assert!(c.custom_settings.is_none());
    assert_eq!(c.get_node_package_manager(), NodePackageManager::Npm);
}

#[test]
fn config_records_selected_manager() {
    let mut c = Config::default();
    c.set_node_package_manager(NodePackageManager::Bun);
    assert_eq!(c.node_package_manager, "bun");
    assert_eq!(c.get_node_package_manager(), NodePackageManager::Bun);
    c.set_node_package_manager(NodePackageManager::Pnpm);
    assert_eq!(c.get_node_package_manager(), NodePackageManager::Pnpm);
}

#[test]
fn config_unknown_manager_reads_as_npm() {
    let c = Config { node_package_manager: "cargo".to_string(), backup_dir: None, custom_settings: None };
    assert_eq!(c.get_node_package_manager(), NodePackageManager::Npm);
}
