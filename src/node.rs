use vstd::prelude::*;

use crate::text::{concat_str, lines, lines_of, opt_view, str_eq, to_strings, views};

verus! {

/// The Node package managers that can install global packages.
#[derive(Clone, Copy, Debug, PartialEq, Eq, Structural)]
pub enum NodePackageManager {
    Npm,
    Yarn,
    Pnpm,
    Bun,
}

/// What `str::to_lowercase` makes of a string.
pub uninterp spec fn lower_of(s: Seq<char>) -> Seq<char>;

/// Relies on `str::to_lowercase`: the result depends on the characters alone.
#[verifier::external_body]
fn lowercase(s: &str) -> (r: String)
    ensures
        r@ == lower_of(s@),
{
    s.to_lowercase()
}

/// The manager a (lower-case) name stands for, if any.
pub open spec fn manager_named(s: Seq<char>) -> Option<NodePackageManager> {
    if s == "npm"@ {
        Some(NodePackageManager::Npm)
    } else if s == "yarn"@ {
        Some(NodePackageManager::Yarn)
    } else if s == "pnpm"@ {
        Some(NodePackageManager::Pnpm)
    } else if s == "bun"@ {
        Some(NodePackageManager::Bun)
    } else {
        None
    }
}

/// A manager name that none of the known managers answers to.
#[derive(Debug)]
pub struct InvalidManager {
    pub name: String,
}

impl InvalidManager {
    pub fn message(&self) -> (r: String)
        ensures
            r@ == "Invalid package manager: "@ + self.name@ + ". Valid options are: npm, yarn, pnpm, bun"@,
    {
        let head = concat_str("Invalid package manager: ", self.name.as_str());
        concat_str(head.as_str(), ". Valid options are: npm, yarn, pnpm, bun")
    }
}

impl NodePackageManager {
    pub open spec fn spec_command(self) -> Seq<char> {
        match self {
            NodePackageManager::Npm => "npm"@,
            NodePackageManager::Yarn => "yarn"@,
            NodePackageManager::Pnpm => "pnpm"@,
            NodePackageManager::Bun => "bun"@,
        }
    }

    pub open spec fn spec_install_args(self) -> Seq<Seq<char>> {
        match self {
            NodePackageManager::Npm => seq!["install"@, "-g"@],
            NodePackageManager::Yarn => seq!["global"@, "add"@],
            NodePackageManager::Pnpm => seq!["add"@, "-g"@],
            NodePackageManager::Bun => seq!["install"@, "-g"@],
        }
    }

    pub open spec fn spec_uninstall_args(self) -> Seq<Seq<char>> {
        match self {
            NodePackageManager::Npm => seq!["uninstall"@, "-g"@],
            NodePackageManager::Yarn => seq!["global"@, "remove"@],
            NodePackageManager::Pnpm => seq!["remove"@, "-g"@],
            NodePackageManager::Bun => seq!["remove"@, "-g"@],
        }
    }

    pub open spec fn spec_list_args(self) -> Seq<Seq<char>> {
        match self {
            NodePackageManager::Npm => seq!["list"@, "-g"@, "--depth=0"@],
            NodePackageManager::Yarn => seq!["global"@, "list"@],
            NodePackageManager::Pnpm => seq!["list"@, "-g"@],
            NodePackageManager::Bun => seq!["list"@, "-g"@],
        }
    }

    pub open spec fn spec_update_args(self) -> Seq<Seq<char>> {
        match self {
            NodePackageManager::Npm => seq!["update"@, "-g"@],
            NodePackageManager::Yarn => seq!["global"@, "upgrade"@],
            NodePackageManager::Pnpm => seq!["update"@, "-g"@],
            NodePackageManager::Bun => seq!["update"@, "-g"@],
        }
    }

    /// The manager's executable.
    pub fn command(&self) -> (r: &str)
        ensures
            r@ == self.spec_command(),
    {
        match self {
            NodePackageManager::Npm => "npm",
            NodePackageManager::Yarn => "yarn",
            NodePackageManager::Pnpm => "pnpm",
            NodePackageManager::Bun => "bun",
        }
    }

    /// The arguments that install a global package, before its name.
    pub fn install_args(&self) -> (r: Vec<&str>)
        ensures
            r@.map_values(|a: &str| a@) == self.spec_install_args(),
    {
        let r = match self {
            NodePackageManager::Npm => vec!["install", "-g"],
            NodePackageManager::Yarn => vec!["global", "add"],
            NodePackageManager::Pnpm => vec!["add", "-g"],
            NodePackageManager::Bun => vec!["install", "-g"],
        };
        assert(r@.map_values(|a: &str| a@) =~= self.spec_install_args());
        r
    }

    /// The arguments that remove a global package, before its name.
    pub fn uninstall_args(&self) -> (r: Vec<&str>)
        ensures
            r@.map_values(|a: &str| a@) == self.spec_uninstall_args(),
    {
        let r = match self {
            NodePackageManager::Npm => vec!["uninstall", "-g"],
            NodePackageManager::Yarn => vec!["global", "remove"],
            NodePackageManager::Pnpm => vec!["remove", "-g"],
            NodePackageManager::Bun => vec!["remove", "-g"],
        };
        assert(r@.map_values(|a: &str| a@) =~= self.spec_uninstall_args());
        r
    }

    /// The arguments that list the global packages.
    pub fn list_args(&self) -> (r: Vec<&str>)
        ensures
            r@.map_values(|a: &str| a@) == self.spec_list_args(),
    {
        let r = match self {
            NodePackageManager::Npm => vec!["list", "-g", "--depth=0"],
            NodePackageManager::Yarn => vec!["global", "list"],
            NodePackageManager::Pnpm => vec!["list", "-g"],
            NodePackageManager::Bun => vec!["list", "-g"],
        };
        assert(r@.map_values(|a: &str| a@) =~= self.spec_list_args());
        r
    }

    /// The arguments that update global packages, before their names.
    pub fn update_args(&self) -> (r: Vec<&str>)
        ensures
            r@.map_values(|a: &str| a@) == self.spec_update_args(),
    {
        let r = match self {
            NodePackageManager::Npm => vec!["update", "-g"],
            NodePackageManager::Yarn => vec!["global", "upgrade"],
            NodePackageManager::Pnpm => vec!["update", "-g"],
            NodePackageManager::Bun => vec!["update", "-g"],
        };
        assert(r@.map_values(|a: &str| a@) =~= self.spec_update_args());
        r
    }

    /// The manager that an already lower-cased name stands for.
    pub fn from_lowercase_name(s: &str) -> (r: Option<NodePackageManager>)
        ensures
            r == manager_named(s@),
    {
        if str_eq(s, "npm") {
            Some(NodePackageManager::Npm)
        } else if str_eq(s, "yarn") {
            Some(NodePackageManager::Yarn)
        } else if str_eq(s, "pnpm") {
            Some(NodePackageManager::Pnpm)
        } else if str_eq(s, "bun") {
            Some(NodePackageManager::Bun)
        } else {
            None
        }
    }

    /// The manager named by `s`, in any letter case.
    pub fn from_str(s: &str) -> (r: Result<NodePackageManager, InvalidManager>)
        ensures
            r is Ok <==> manager_named(lower_of(s@)) is Some,
            r is Ok ==> Some(r->Ok_0) == manager_named(lower_of(s@)),
            r is Err ==> r->Err_0.name@ == s@,
    {
        let lower = lowercase(s);
        match NodePackageManager::from_lowercase_name(lower.as_str()) {
            Some(m) => Ok(m),
            None => Err(InvalidManager { name: String::from_str(s) }),
        }
    }
}

/// The author of a Node package, as its registry document names them.
#[derive(Debug)]
pub struct NpmAuthor {
    pub name: Option<String>,
    pub email: Option<String>,
}

/// Where a Node package's source lives; no field of it is read.
#[derive(Debug)]
pub struct NpmRepository {}

/// The registry document that describes the Node package `name`.
pub fn registry_url(name: &str) -> (r: String)
    ensures
        r@ == "https://registry.npmjs.org/"@ + name@,
{
    concat_str("https://registry.npmjs.org/", name)
}

/// Runs one Node package manager for global packages.
#[derive(Clone, Copy, Debug)]
pub struct NodeManager {
    pub package_manager: NodePackageManager,
}

/// A package name, pinned to a version when one is given.
pub open spec fn versioned_name(name: Seq<char>, version: Option<Seq<char>>) -> Seq<char> {
    match version {
        Some(v) => name + "@"@ + v,
        None => name,
    }
}

impl NodeManager {
    pub fn new(package_manager: NodePackageManager) -> (r: Self)
        ensures
            r.package_manager == package_manager,
    {
        NodeManager { package_manager }
    }

    /// The executable to run.
    pub fn program(&self) -> (r: &str)
        ensures
            r@ == self.package_manager.spec_command(),
    {
        self.package_manager.command()
    }

    /// The package argument: `name`, or `name@version`.
    pub fn package_argument(name: &str, version: Option<&str>) -> (r: String)
        ensures
            r@ == versioned_name(name@, opt_view(version)),
    {
        match version {
            Some(v) => {
                let head = concat_str(name, "@");
                let r = concat_str(head.as_str(), v);
                assert(r@ == name@ + "@"@ + v@);
                r
            },
            None => String::from_str(name),
        }
    }

    /// The arguments that install `name`, pinned to `version` when given.
    pub fn install_command(&self, name: &str, version: Option<&str>) -> (r: Vec<String>)
        ensures
            views(r@) == self.package_manager.spec_install_args().push(
                versioned_name(name@, opt_view(version)),
            ),
    {
        let mut r = to_strings(&self.package_manager.install_args());
        let p = NodeManager::package_argument(name, version);
        proof {
            assert(views(r@.push(p)) =~= views(r@).push(p@));
        }
        r.push(p);
        r
    }

    /// The arguments that remove `name`.
    pub fn uninstall_command(&self, name: &str) -> (r: Vec<String>)
        ensures
            views(r@) == self.package_manager.spec_uninstall_args().push(name@),
    {
        let mut r = to_strings(&self.package_manager.uninstall_args());
        let p = String::from_str(name);
        proof {
            assert(views(r@.push(p)) =~= views(r@).push(p@));
        }
        r.push(p);
        r
    }

    /// The arguments that update `packages`, or every global package when none is named.
    pub fn update_command(&self, packages: &Vec<String>) -> (r: Vec<String>)
        ensures
            views(r@) == self.package_manager.spec_update_args() + views(packages@),
    {
        let mut r = to_strings(&self.package_manager.update_args());
        crate::text::extend_strings(&mut r, packages);
        r
    }

    /// The arguments that list the global packages.
    pub fn list_command(&self) -> (r: Vec<String>)
        ensures
            views(r@) == self.package_manager.spec_list_args(),
    {
        to_strings(&self.package_manager.list_args())
    }

    /// The package lines of a listing: every line after the first, which names the
    /// install location.
    pub fn listed_packages(output: &str) -> (r: Vec<String>)
        ensures
            views(r@) == (if lines_of(output@).len() == 0 {
                Seq::<Seq<char>>::empty()
            } else {
                lines_of(output@).drop_first()
            }),
    {
        let all = lines(output);
        let mut r: Vec<String> = Vec::new();
        if all.len() == 0 {
            assert(views(r@) =~= Seq::<Seq<char>>::empty());
            return r;
        }
        let mut i: usize = 1;
        while i < all.len()
            invariant
                1 <= i <= all@.len(),
                views(all@) == lines_of(output@),
                views(r@) =~= views(all@).subrange(1, i as int),
            decreases all@.len() - i,
        {
            let s = all[i].clone();
            proof {
                assert(views(r@.push(s)) =~= views(r@).push(s@));
            }
            r.push(s);
            i = i + 1;
        }
        assert(views(all@).subrange(1, all@.len() as int) =~= views(all@).drop_first());
        r
    }
}

} // verus!
