use vstd::prelude::*;

use crate::package_spec::{classify_name, tap_of, NameForm};
use crate::text::{
    concat_str, count_sep, extend_strings, opt_view, pieces, push_str,
    split_pieces, views, Sep,
};

verus! {

/// The two kinds of package the system package manager installs.
#[derive(Clone, Copy, Debug, PartialEq, Eq, Structural)]
pub enum HomebrewPackageType {
    Formula,
    Cask,
}

/// The versions a formula offers.
#[derive(Debug)]
pub struct Versions {
    pub stable: String,
}

/// Metadata of a formula, or of a cask in the same shape.
#[derive(Debug)]
pub struct Formula {
    pub name: String,
    pub full_name: String,
    pub desc: Option<String>,
    pub homepage: Option<String>,
    pub versions: Versions,
    pub versioned_formulae: Vec<String>,
    pub aliases: Vec<String>,
    pub tap: Option<String>,
    pub license: Option<String>,
}

/// Metadata of a cask as the registry describes it.
#[derive(Debug)]
pub struct Cask {
    pub token: String,
    pub desc: Option<String>,
    pub homepage: Option<String>,
    pub version: String,
    pub tap: Option<String>,
}

/// The identity to install for `name` when `version` is asked for: the versioned alias
/// `name@version` where it is known, else the unversioned latest.
pub open spec fn install_identity(
    name: Seq<char>,
    aliases: Seq<Seq<char>>,
    version: Option<Seq<char>>,
) -> Seq<char> {
    match version {
        Some(v) => if aliases.contains(name + "@"@ + v) {
            name + "@"@ + v
        } else {
            name
        },
        None => name,
    }
}

/// Asking for a version that has no versioned alias installs the unversioned latest
/// identity instead of failing.
pub proof fn lemma_version_fallback(name: Seq<char>, aliases: Seq<Seq<char>>, version: Seq<char>)
    requires
        !aliases.contains(name + "@"@ + version),
    ensures
        install_identity(name, aliases, Some(version)) == name,
{
}

/// What to tell the user about the version that will be installed.
#[derive(Clone, Copy, Debug, PartialEq, Eq, Structural)]
pub enum VersionNotice {
    /// The install is what was asked for.
    Exact,
    /// The asked version is missing; other versions are known.
    ListAvailable,
    /// The asked version is missing; only the latest is known.
    OnlyLatest,
    /// The asked version is missing and nothing is known of versions.
    NoVersionInfo,
}

/// The version an alias `name@version` names; empty where it has no `@`.
pub open spec fn alias_version(alias: Seq<char>) -> Seq<char> {
    if pieces(alias, Sep::At).len() > 1 {
        pieces(alias, Sep::At)[1]
    } else {
        Seq::<char>::empty()
    }
}

impl Formula {
    /// The identity this formula installs as for `version`.
    pub open spec fn spec_identity(&self, version: Option<Seq<char>>) -> Seq<char> {
        install_identity(self.name@, views(self.versioned_formulae@), version)
    }

    /// The identity to install, falling back to the latest when the asked version has no
    /// versioned alias.
    pub fn get_install_name(&self, version: Option<&str>) -> (r: String)
        ensures
            r@ == self.spec_identity(opt_view(version)),
    {
        match version {
            Some(v) => {
                let head = concat_str(self.name.as_str(), "@");
                let versioned = concat_str(head.as_str(), v);
                assert(versioned@ == self.name@ + "@"@ + v@);
                if contains_string(&self.versioned_formulae, &versioned) {
                    versioned
                } else {
                    self.name.clone()
                }
            },
            None => self.name.clone(),
        }
    }

    /// The notice that goes with `get_install_name` for the same version.
    pub fn version_notice(&self, version: Option<&str>) -> (r: VersionNotice)
        ensures
            r == (if version is None || self.spec_identity(opt_view(version)) != self.name@ {
                VersionNotice::Exact
            } else if self.versioned_formulae@.len() > 0 {
                VersionNotice::ListAvailable
            } else if self.versions.stable@.len() > 0 {
                VersionNotice::OnlyLatest
            } else {
                VersionNotice::NoVersionInfo
            }),
    {
        match version {
            None => VersionNotice::Exact,
            Some(v) => {
                proof {
                    reveal_strlit("@");
                }
                let head = concat_str(self.name.as_str(), "@");
                let versioned = concat_str(head.as_str(), v);
                assert(versioned@ == self.name@ + "@"@ + v@);
                assert(versioned@.len() > self.name@.len());
                if contains_string(&self.versioned_formulae, &versioned) {
                    assert(versioned@ != self.name@);
                    VersionNotice::Exact
                } else if self.versioned_formulae.len() > 0 {
                    VersionNotice::ListAvailable
                } else if self.versions.stable.unicode_len() > 0 {
                    VersionNotice::OnlyLatest
                } else {
                    VersionNotice::NoVersionInfo
                }
            },
        }
    }

    /// The versions that the versioned aliases name, in order.
    pub fn alias_versions(&self) -> (r: Vec<String>)
        ensures
            views(r@) == views(self.versioned_formulae@).map_values(
                |a: Seq<char>| alias_version(a),
            ),
    {
        let mut r: Vec<String> = Vec::new();
        let mut i: usize = 0;
        while i < self.versioned_formulae.len()
            invariant
                i <= self.versioned_formulae@.len(),
                views(r@) =~= views(self.versioned_formulae@).subrange(0, i as int).map_values(
                    |a: Seq<char>| alias_version(a),
                ),
            decreases self.versioned_formulae@.len() - i,
        {
            let parts = split_pieces(self.versioned_formulae[i].as_str(), Sep::At);
            let v = if parts.len() > 1 {
                assert(views(parts@)[1] == parts@[1]@);
                parts[1].clone()
            } else {
                String::new()
            };
            proof {
                assert(views(self.versioned_formulae@)[i as int] == self.versioned_formulae@[i as int]@);
                assert(views(r@.push(v)) =~= views(r@).push(v@));
                assert(views(self.versioned_formulae@).subrange(0, i + 1) =~= views(
                    self.versioned_formulae@,
                ).subrange(0, i as int).push(self.versioned_formulae@[i as int]@));
            }
            r.push(v);
            i = i + 1;
        }
        assert(views(self.versioned_formulae@).subrange(0, i as int) =~= views(
            self.versioned_formulae@,
        ));
        r
    }

    /// A cask's metadata in the formula shape: its token is its name, its version the
    /// stable version, and it has no aliases.
    pub fn from_cask(cask: Cask) -> (r: Formula)
        ensures
            r.name@ == cask.token@,
            r.full_name@ == cask.token@,
            r.desc == cask.desc,
            r.homepage == cask.homepage,
            r.versions.stable == cask.version,
            r.versioned_formulae@.len() == 0,
            r.aliases@.len() == 0,
            r.tap == cask.tap,
            r.license is None,
    {
        let name = String::from_str(cask.token.as_str());
        Formula {
            name,
            full_name: cask.token,
            desc: cask.desc,
            homepage: cask.homepage,
            versions: Versions { stable: cask.version },
            versioned_formulae: Vec::new(),
            aliases: Vec::new(),
            tap: cask.tap,
            license: None,
        }
    }
}

/// Whether `v` holds a string equal to `s`.
pub fn contains_string(v: &Vec<String>, s: &String) -> (r: bool)
    ensures
        r == views(v@).contains(s@),
{
    let mut i: usize = 0;
    while i < v.len()
        invariant
            i <= v@.len(),
            forall|k: int| 0 <= k < i ==> v@[k]@ != s@,
        decreases v@.len() - i,
    {
        if v[i] == *s {
            assert(views(v@)[i as int] == s@);
            return true;
        }
        i = i + 1;
    }
    proof {
        if views(v@).contains(s@) {
            let k = choose|k: int| 0 <= k < views(v@).len() && views(v@)[k] == s@;
            assert(v@[k]@ == s@);
        }
    }
    false
}

/// `["--cask"]` for casks, nothing for formulas.
pub open spec fn cask_flag(kind: HomebrewPackageType) -> Seq<Seq<char>> {
    if kind == HomebrewPackageType::Cask {
        seq!["--cask"@]
    } else {
        Seq::<Seq<char>>::empty()
    }
}

fn start_args(first: &str, kind: HomebrewPackageType) -> (r: Vec<String>)
    ensures
        views(r@) == seq![first@] + cask_flag(kind),
{
    let mut r: Vec<String> = Vec::new();
    push_str(&mut r, first);
    if kind == HomebrewPackageType::Cask {
        push_str(&mut r, "--cask");
    }
    assert(views(r@) =~= seq![first@] + cask_flag(kind));
    r
}

/// `install [--cask] <identity> <options...>`.
pub fn install_args(identity: &str, kind: HomebrewPackageType, options: &Vec<String>) -> (r: Vec<
    String,
>)
    ensures
        views(r@) == seq!["install"@] + cask_flag(kind) + seq![identity@] + views(options@),
{
    let mut r = start_args("install", kind);
    push_str(&mut r, identity);
    extend_strings(&mut r, options);
    assert(views(r@) =~= seq!["install"@] + cask_flag(kind) + seq![identity@] + views(options@));
    r
}

/// `uninstall [--cask] <name>`.
pub fn uninstall_args(name: &str, kind: HomebrewPackageType) -> (r: Vec<String>)
    ensures
        views(r@) == seq!["uninstall"@] + cask_flag(kind) + seq![name@],
{
    let mut r = start_args("uninstall", kind);
    push_str(&mut r, name);
    assert(views(r@) =~= seq!["uninstall"@] + cask_flag(kind) + seq![name@]);
    r
}

/// `list --versions [--cask] <name>`: prints the installed versions, nothing when absent.
pub fn installed_check_args(name: &str, kind: HomebrewPackageType) -> (r: Vec<String>)
    ensures
        views(r@) == seq!["list"@, "--versions"@] + cask_flag(kind) + seq![name@],
{
    let mut r: Vec<String> = Vec::new();
    push_str(&mut r, "list");
    push_str(&mut r, "--versions");
    if kind == HomebrewPackageType::Cask {
        push_str(&mut r, "--cask");
    }
    push_str(&mut r, name);
    assert(views(r@) =~= seq!["list"@, "--versions"@] + cask_flag(kind) + seq![name@]);
    r
}

/// `list --versions --formula|--cask`: every installed package of a kind with its versions.
pub fn list_versions_args(kind: HomebrewPackageType) -> (r: Vec<String>)
    ensures
        views(r@) == seq![
            "list"@,
            "--versions"@,
            if kind == HomebrewPackageType::Cask {
                "--cask"@
            } else {
                "--formula"@
            },
        ],
{
    let mut r: Vec<String> = Vec::new();
    push_str(&mut r, "list");
    push_str(&mut r, "--versions");
    if kind == HomebrewPackageType::Cask {
        push_str(&mut r, "--cask");
    } else {
        push_str(&mut r, "--formula");
    }
    assert(views(r@) =~= seq![
        "list"@,
        "--versions"@,
        if kind == HomebrewPackageType::Cask {
            "--cask"@
        } else {
            "--formula"@
        },
    ]);
    r
}

/// A two-word command `<verb> <operand>`.
pub fn verb_args(verb: &str, operand: &str) -> (r: Vec<String>)
    ensures
        views(r@) == seq![verb@, operand@],
{
    let mut r: Vec<String> = Vec::new();
    push_str(&mut r, verb);
    push_str(&mut r, operand);
    assert(views(r@) =~= seq![verb@, operand@]);
    r
}

/// `cleanup <name>`: removes what an uninstall left behind.
pub fn cleanup_args(name: &str) -> (r: Vec<String>)
    ensures
        views(r@) == seq!["cleanup"@, name@],
{
    verb_args("cleanup", name)
}

/// `info --json=v2 <name>`: the local metadata query.
pub fn info_args(name: &str) -> (r: Vec<String>)
    ensures
        views(r@) == seq!["info"@, "--json=v2"@, name@],
{
    let mut r: Vec<String> = Vec::new();
    push_str(&mut r, "info");
    push_str(&mut r, "--json=v2");
    push_str(&mut r, name);
    assert(views(r@) =~= seq!["info"@, "--json=v2"@, name@]);
    r
}

/// Where a package's metadata comes from.
#[derive(Debug)]
pub enum MetadataSource {
    /// Register `tap`, then ask the local `info` query for the qualified name.
    Tap { tap: String },
    /// Fetch this registry document.
    Registry { url: String },
    /// The name has one, or three or more, `/`.
    InvalidFormat,
}

/// The registry document of a bare name of the given kind.
pub open spec fn registry_url(name: Seq<char>, kind: HomebrewPackageType) -> Seq<char> {
    (if kind == HomebrewPackageType::Cask {
        "https://formulae.brew.sh/api/cask/"@
    } else {
        "https://formulae.brew.sh/api/formula/"@
    }) + name + ".json"@
}

/// Where to look `name` up: a tap-qualified name through its tap, a bare one in the
/// registry of its kind.
pub fn metadata_source(name: &str, kind: HomebrewPackageType) -> (r: MetadataSource)
    ensures
        count_sep(name@, Sep::Slash) == 0 <==> r is Registry,
        count_sep(name@, Sep::Slash) == 2 <==> r is Tap,
        r matches MetadataSource::Tap { tap } ==> tap@ == tap_of(name@),
        r matches MetadataSource::Registry { url } ==> url@ == registry_url(name@, kind),
{
    match classify_name(name) {
        NameForm::Plain => {
            let base = if kind == HomebrewPackageType::Cask {
                "https://formulae.brew.sh/api/cask/"
            } else {
                "https://formulae.brew.sh/api/formula/"
            };
            let head = concat_str(base, name);
            let url = concat_str(head.as_str(), ".json");
            MetadataSource::Registry { url }
        },
        NameForm::Tapped { tap, formula: _ } => MetadataSource::Tap { tap },
        NameForm::Invalid => MetadataSource::InvalidFormat,
    }
}

/// The line that puts the package manager on the shell's path after it is installed.
pub fn shellenv_line(platform: crate::platform::Platform) -> (r: &'static str)
    ensures
        r@ == (if platform == crate::platform::Platform::Linux {
            "\neval $(/home/linuxbrew/.linuxbrew/bin/brew shellenv)"@
        } else {
            "\neval \"$(/usr/local/bin/brew shellenv)\""@
        }),
{
    match platform {
        crate::platform::Platform::Linux => "\neval $(/home/linuxbrew/.linuxbrew/bin/brew shellenv)",
        _ => "\neval \"$(/usr/local/bin/brew shellenv)\"",
    }
}

/// The shell start-up file, in the home directory, for the user's shell.
pub fn shell_config_file(shell: Option<&str>) -> (r: &'static str)
    ensures
        r@ == (if shell is Some && crate::text::has_infix(shell->0@, "zsh"@) {
            ".zshrc"@
        } else {
            ".bashrc"@
        }),
{
    match shell {
        Some(s) => if crate::text::contains_str(s, "zsh") {
            ".zshrc"
        } else {
            ".bashrc"
        },
        None => ".bashrc",
    }
}

} // verus!
