use vstd::prelude::*;

use crate::backend::Backend;
use crate::homebrew::{cask_flag, cleanup_args, uninstall_args, Formula, HomebrewPackageType};
use crate::package_spec::PackageSpec;
use crate::text::{lines, lines_of, opt_string_view, views};

verus! {

/// The operation a failure belongs to.
#[derive(Clone, Copy, Debug, PartialEq, Eq, Structural)]
pub enum Operation {
    Install,
    Uninstall,
    Update,
}

/// Why a single-package operation failed.
#[derive(Debug)]
pub enum OpError {
    /// No backend or registry knows the package.
    NotFound { name: String },
    /// A backend command exited unsuccessfully.
    SubprocessFailure { operation: Operation, name: String },
}

/// The identity a package resolves to, given what the metadata lookup found: a
/// tap-qualified name installs as given, a bare one through the version fallback.
pub fn resolve_identity(spec: &PackageSpec, found: Option<&Formula>) -> (r: Result<String, OpError>)
    ensures
        found is None ==> (r matches Err(OpError::NotFound { name }) && name@ == spec.name@),
        found is Some ==> r is Ok,
        found is Some && spec.tap_qualifier is Some ==> r->Ok_0@ == spec.name@,
        found is Some && spec.tap_qualifier is None ==> r->Ok_0@ == found->0.spec_identity(
            opt_string_view(spec.version),
        ),
{
    match found {
        None => Err(OpError::NotFound { name: spec.name.clone() }),
        Some(f) => {
            if spec.tap_qualifier.is_some() {
                Ok(spec.name.clone())
            } else {
                match &spec.version {
                    Some(v) => Ok(f.get_install_name(Some(v.as_str()))),
                    None => Ok(f.get_install_name(None)),
                }
            }
        },
    }
}

/// The runtime that must be installed through the system package manager before
/// `backend` can install anything: the Node runtime for a Node backend when it is missing.
pub fn missing_runtime(backend: Backend, runtime_present: bool) -> (r: Option<&'static str>)
    ensures
        r is Some <==> (backend is Node && !runtime_present),
        r matches Some(n) ==> n@ == "node"@,
{
    match backend {
        Backend::Node(_) => if runtime_present {
            None
        } else {
            Some("node")
        },
        Backend::Homebrew(_) => None,
    }
}

/// The result of one backend call for `name`: its exit status is the only signal.
pub fn check_exit(operation: Operation, name: &str, success: bool) -> (r: Result<(), OpError>)
    ensures
        success <==> r is Ok,
        r matches Err(OpError::SubprocessFailure { operation: op, name: n }) ==> (op == operation
            && n@ == name@),
        r is Err ==> r->Err_0 is SubprocessFailure,
{
    if success {
        Ok(())
    } else {
        Err(OpError::SubprocessFailure { operation, name: String::from_str(name) })
    }
}

/// How an uninstall ended.
#[derive(Clone, Copy, Debug, PartialEq, Eq, Structural)]
pub enum UninstallOutcome {
    /// The package was absent: nothing was run.
    NotInstalled,
    Uninstalled,
    Failed,
}

/// A package is installed when the membership query succeeds and prints something.
pub open spec fn spec_is_installed(query_ok: bool, output: Seq<char>) -> bool {
    query_ok && output.len() > 0
}

/// Reads the membership query's result.
pub fn is_installed(query_ok: bool, output: &str) -> (r: bool)
    ensures
        r == spec_is_installed(query_ok, output@),
{
    query_ok && output.unicode_len() > 0
}

/// The commands that uninstall `name`: none when it is not installed, else the
/// uninstall followed by a best-effort cleanup.
pub open spec fn spec_uninstall_commands(
    name: Seq<char>,
    kind: HomebrewPackageType,
    installed: bool,
) -> Seq<Seq<Seq<char>>> {
    if installed {
        seq![seq!["uninstall"@] + cask_flag(kind) + seq![name], seq!["cleanup"@, name]]
    } else {
        Seq::empty()
    }
}

/// Absent: nothing to do; present: the uninstall's exit status decides.
pub open spec fn spec_uninstall_outcome(installed: bool, uninstall_ok: bool) -> UninstallOutcome {
    if !installed {
        UninstallOutcome::NotInstalled
    } else if uninstall_ok {
        UninstallOutcome::Uninstalled
    } else {
        UninstallOutcome::Failed
    }
}

/// The arguments of each command, in order.
pub open spec fn command_views(v: Seq<Vec<String>>) -> Seq<Seq<Seq<char>>> {
    v.map_values(|c: Vec<String>| views(c@))
}

/// The commands to run to uninstall `name`.
pub fn uninstall_commands(name: &str, kind: HomebrewPackageType, installed: bool) -> (r: Vec<
    Vec<String>,
>)
    ensures
        command_views(r@) == spec_uninstall_commands(name@, kind, installed),
{
    let mut r: Vec<Vec<String>> = Vec::new();
    if installed {
        let u = uninstall_args(name, kind);
        let c = cleanup_args(name);
        r.push(u);
        r.push(c);
        assert(command_views(r@) =~= spec_uninstall_commands(name@, kind, installed));
    } else {
        assert(command_views(r@) =~= spec_uninstall_commands(name@, kind, installed));
    }
    r
}

/// How the uninstall ended; the cleanup's own status never changes it.
pub fn uninstall_outcome(installed: bool, uninstall_ok: bool) -> (r: UninstallOutcome)
    ensures
        r == spec_uninstall_outcome(installed, uninstall_ok),
{
    if !installed {
        UninstallOutcome::NotInstalled
    } else if uninstall_ok {
        UninstallOutcome::Uninstalled
    } else {
        UninstallOutcome::Failed
    }
}

/// Whether an uninstall outcome is reported as a success.
pub open spec fn outcome_is_success(o: UninstallOutcome) -> bool {
    o != UninstallOutcome::Failed
}

/// Uninstalling a package that is not installed runs no backend command and ends as a
/// success that reports "not installed", whatever the uninstall call would have returned.
pub proof fn lemma_uninstall_absent_is_noop(
    name: Seq<char>,
    kind: HomebrewPackageType,
    query_ok: bool,
    output: Seq<char>,
    uninstall_ok: bool,
)
    requires
        !spec_is_installed(query_ok, output),
    ensures
        spec_uninstall_commands(name, kind, spec_is_installed(query_ok, output)).len() == 0,
        spec_uninstall_outcome(spec_is_installed(query_ok, output), uninstall_ok)
            == UninstallOutcome::NotInstalled,
        outcome_is_success(spec_uninstall_outcome(spec_is_installed(query_ok, output), uninstall_ok)),
{
}

/// The packages an update goes over: the named ones, or every installed one when none is
/// named.
pub fn update_targets(requested: &Vec<String>, installed_listing: &str) -> (r: Vec<String>)
    ensures
        views(r@) == (if requested@.len() == 0 {
            lines_of(installed_listing@)
        } else {
            views(requested@)
        }),
{
    if requested.len() == 0 {
        lines(installed_listing)
    } else {
        let mut r: Vec<String> = Vec::new();
        crate::text::extend_strings(&mut r, requested);
        assert(views(r@) =~= views(requested@));
        r
    }
}

/// Whether the backend's own index is refreshed before upgrading: only when no package
/// is named.
pub fn refresh_first(requested: &Vec<String>) -> (r: bool)
    ensures
        r == (requested@.len() == 0),
{
    requested.len() == 0
}

/// How many items of a batch passed and failed.
#[derive(Clone, Copy, Debug, PartialEq, Eq, Structural)]
pub struct BatchSummary {
    pub succeeded: usize,
    pub failed: usize,
}

/// How many of `results` equal `ok`.
pub open spec fn count_results(results: Seq<bool>, ok: bool) -> nat
    decreases results.len(),
{
    if results.len() == 0 {
        0
    } else {
        count_results(results.drop_last(), ok) + if results.last() == ok {
            1nat
        } else {
            0nat
        }
    }
}

/// Every result is either a pass or a failure.
pub proof fn lemma_count_results_bound(results: Seq<bool>, ok: bool)
    ensures
        count_results(results, ok) <= results.len(),
        count_results(results, true) + count_results(results, false) == results.len(),
    decreases results.len(),
{
    if results.len() > 0 {
        lemma_count_results_bound(results.drop_last(), ok);
    }
}

/// Counts the passes and failures of a batch whose items ran independently.
pub fn summarize(results: &Vec<bool>) -> (r: BatchSummary)
    ensures
        r.succeeded == count_results(results@, true),
        r.failed == count_results(results@, false),
        r.succeeded + r.failed == results@.len(),
{
    let mut succeeded: usize = 0;
    let mut failed: usize = 0;
    let mut i: usize = 0;
    while i < results.len()
        invariant
            i <= results@.len(),
            succeeded == count_results(results@.subrange(0, i as int), true),
            failed == count_results(results@.subrange(0, i as int), false),
            succeeded + failed == i,
        decreases results@.len() - i,
    {
        assert(results@.subrange(0, i + 1).drop_last() =~= results@.subrange(0, i as int));
        if results[i] {
            succeeded = succeeded + 1;
        } else {
            failed = failed + 1;
        }
        i = i + 1;
    }
    assert(results@.subrange(0, i as int) =~= results@);
    BatchSummary { succeeded, failed }
}

} // verus!
