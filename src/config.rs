use vstd::prelude::*;

use crate::node::{manager_named, NodePackageManager};

verus! {

/// Relies on `serde_json::Value` only as an opaque type: free-form settings are carried
/// through as the JSON value they were read as, and nothing here looks inside one.
#[verifier::external_type_specification]
#[verifier::external_body]
pub struct ExValue(serde_json::Value);

/// The persisted settings: the selected Node package manager and an optional backup
/// directory.
#[derive(Debug)]
pub struct Config {
    /// `"npm"`, `"yarn"`, `"pnpm"` or `"bun"`.
    pub node_package_manager: String,
    pub backup_dir: Option<String>,
    pub custom_settings: Option<serde_json::Value>,
}

impl Default for Config {
    fn default() -> (r: Config)
        ensures
            r.node_package_manager@ == "npm"@,
            r.backup_dir is None,
            r.custom_settings is None,
    {
        Config {
            node_package_manager: String::from_str("npm"),
            backup_dir: None,
            custom_settings: None,
        }
    }
}

impl Config {
    /// Records `manager` as the selected Node package manager.
    pub fn set_node_package_manager(&mut self, manager: NodePackageManager)
        ensures
            final(self).node_package_manager@ == manager.spec_command(),
            final(self).backup_dir == old(self).backup_dir,
            final(self).custom_settings == old(self).custom_settings,
    {
        self.node_package_manager = String::from_str(manager.command());
    }

    /// The selected Node package manager; npm where the recorded name is not known.
    pub fn get_node_package_manager(&self) -> (r: NodePackageManager)
        ensures
            r == (match manager_named(self.node_package_manager@) {
                Some(m) => m,
                None => NodePackageManager::Npm,
            }),
    {
        match NodePackageManager::from_lowercase_name(self.node_package_manager.as_str()) {
            Some(m) => m,
            None => NodePackageManager::Npm,
        }
    }
}

} // verus!
