use vstd::prelude::*;

use crate::homebrew::{self, cask_flag, HomebrewPackageType};
use crate::node::NodePackageManager;
use crate::platform::Platform;
use crate::text::{extend_strings, push_str, to_strings, views};

verus! {

/// A package-manager backend: the system package manager for one kind of package, or a
/// Node package manager. Each gives its executable and argument templates as plain data,
/// so that the code that runs them does not depend on which backend it runs.
#[derive(Clone, Copy, Debug, PartialEq, Eq, Structural)]
pub enum Backend {
    Homebrew(HomebrewPackageType),
    Node(NodePackageManager),
}

/// One backend call: an executable and its arguments.
#[derive(Debug)]
pub struct Invocation {
    pub program: String,
    pub args: Vec<String>,
}

impl Backend {
    pub open spec fn spec_program(self, platform: Platform) -> Seq<char> {
        match self {
            Backend::Homebrew(_) => platform.spec_brew_program(),
            Backend::Node(m) => m.spec_command(),
        }
    }

    pub open spec fn spec_install(self, identity: Seq<char>, options: Seq<Seq<char>>) -> Seq<
        Seq<char>,
    > {
        match self {
            Backend::Homebrew(k) => seq!["install"@] + cask_flag(k) + seq![identity] + options,
            Backend::Node(m) => m.spec_install_args() + seq![identity] + options,
        }
    }

    pub open spec fn spec_uninstall(self, name: Seq<char>) -> Seq<Seq<char>> {
        match self {
            Backend::Homebrew(k) => seq!["uninstall"@] + cask_flag(k) + seq![name],
            Backend::Node(m) => m.spec_uninstall_args() + seq![name],
        }
    }

    pub open spec fn spec_list(self) -> Seq<Seq<char>> {
        match self {
            Backend::Homebrew(k) => seq![
                "list"@,
                "--versions"@,
                if k == HomebrewPackageType::Cask {
                    "--cask"@
                } else {
                    "--formula"@
                },
            ],
            Backend::Node(m) => m.spec_list_args(),
        }
    }

    pub open spec fn spec_upgrade(self, names: Seq<Seq<char>>) -> Seq<Seq<char>> {
        match self {
            Backend::Homebrew(_) => seq!["upgrade"@] + names,
            Backend::Node(m) => m.spec_update_args() + names,
        }
    }

    /// The backend's executable on `platform`.
    pub fn program(&self, platform: Platform) -> (r: String)
        ensures
            r@ == self.spec_program(platform),
    {
        match self {
            Backend::Homebrew(_) => String::from_str(platform.brew_program()),
            Backend::Node(m) => String::from_str(m.command()),
        }
    }

    /// Installs `identity`, passing `options` on as they stand.
    pub fn install(&self, platform: Platform, identity: &str, options: &Vec<String>) -> (r:
        Invocation)
        ensures
            r.program@ == self.spec_program(platform),
            views(r.args@) == self.spec_install(identity@, views(options@)),
    {
        let program = self.program(platform);
        let args = match self {
            Backend::Homebrew(k) => homebrew::install_args(identity, *k, options),
            Backend::Node(m) => {
                let mut a = to_strings(&m.install_args());
                push_str(&mut a, identity);
                extend_strings(&mut a, options);
                a
            },
        };
        Invocation { program, args }
    }

    /// Removes `name`.
    pub fn uninstall(&self, platform: Platform, name: &str) -> (r: Invocation)
        ensures
            r.program@ == self.spec_program(platform),
            views(r.args@) == self.spec_uninstall(name@),
    {
        let program = self.program(platform);
        let args = match self {
            Backend::Homebrew(k) => homebrew::uninstall_args(name, *k),
            Backend::Node(m) => {
                let mut a = to_strings(&m.uninstall_args());
                push_str(&mut a, name);
                a
            },
        };
        Invocation { program, args }
    }

    /// Lists what the backend has installed.
    pub fn list(&self, platform: Platform) -> (r: Invocation)
        ensures
            r.program@ == self.spec_program(platform),
            views(r.args@) == self.spec_list(),
    {
        let program = self.program(platform);
        let args = match self {
            Backend::Homebrew(k) => homebrew::list_versions_args(*k),
            Backend::Node(m) => to_strings(&m.list_args()),
        };
        Invocation { program, args }
    }

    /// Upgrades `names`.
    pub fn upgrade(&self, platform: Platform, names: &Vec<String>) -> (r: Invocation)
        ensures
            r.program@ == self.spec_program(platform),
            views(r.args@) == self.spec_upgrade(views(names@)),
    {
        let program = self.program(platform);
        let mut args = match self {
            Backend::Homebrew(_) => {
                let mut a: Vec<String> = Vec::new();
                push_str(&mut a, "upgrade");
                a
            },
            Backend::Node(m) => to_strings(&m.update_args()),
        };
        extend_strings(&mut args, names);
        proof {
            match self {
                Backend::Homebrew(_) => {
                    assert(views(args@) =~= self.spec_upgrade(views(names@)));
                },
                Backend::Node(m) => {
                    assert(views(args@) =~= self.spec_upgrade(views(names@)));
                },
            }
        }
        Invocation { program, args }
    }
}

} // verus!
