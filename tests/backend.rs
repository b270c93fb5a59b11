use bert::backend::Backend;
use bert::homebrew::HomebrewPackageType;
use bert::node::NodePackageManager;
use bert::platform::Platform;

#[test]
fn homebrew_backend_templates() {
    let cask = Backend::Homebrew(HomebrewPackageType::Cask);
    let call = cask.install(Platform::Windows, "firefox", &vec![]);
    assert_eq!(call.program, "brew.exe");
    assert_eq!(call.args, vec!["install", "--cask", "firefox"]);
    let formula = Backend::Homebrew(HomebrewPackageType::Formula);
    let call = formula.install(Platform::Linux, "wget", &vec!["--HEAD".to_string()]);
    assert_eq!(call.program, "brew");
    assert_eq!(call.args, vec!["install", "wget", "--HEAD"]);
    assert_eq!(formula.uninstall(Platform::MacOS, "wget").args, vec!["uninstall", "wget"]);
    assert_eq!(cask.list(Platform::MacOS).args, vec!["list", "--versions", "--cask"]);
    assert_eq!(formula.upgrade(Platform::MacOS, &vec!["git".to_string()]).args, vec!["upgrade", "git"]);
}

#[test]
fn node_backend_templates() {
    let pnpm = Backend::Node(NodePackageManager::Pnpm);
    let call = pnpm.install(Platform::Linux, "tsx@4.0.0", &vec![]);
    assert_eq!(call.program, "pnpm");
    assert_eq!(call.args, vec!["add", "-g", "tsx@4.0.0"]);
    assert_eq!(pnpm.uninstall(Platform::Linux, "tsx").args, vec!["remove", "-g", "tsx"]);
    assert_eq!(pnpm.list(Platform::Linux).args, vec!["list", "-g"]);
    let bun = Backend::Node(NodePackageManager::Bun);
    assert_eq!(bun.upgrade(Platform::Windows, &vec![]).args, vec!["update", "-g"]);
    assert_eq!(bun.program(Platform::Windows), "bun");
}
