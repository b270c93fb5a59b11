use vstd::prelude::*;

use crate::platform::Platform;
use crate::text::{chars_of, concat_str};

verus! {

/// A downloadable file of a release.
#[derive(Debug)]
pub struct ReleaseAsset {
    pub name: String,
    pub browser_download_url: String,
}

/// The latest published release, as the release feed describes it.
#[derive(Debug)]
pub struct Release {
    pub tag_name: String,
    pub body: Option<String>,
    pub assets: Vec<ReleaseAsset>,
    pub html_url: String,
}

/// A tag without its leading `v` characters.
pub open spec fn strip_v(s: Seq<char>) -> Seq<char>
    decreases s.len(),
{
    if s.len() > 0 && s[0] == 'v' {
        strip_v(s.drop_first())
    } else {
        s
    }
}

/// Dropping leading `v` characters one at a time does not change the stripped tag.
proof fn lemma_strip_v_suffix(s: Seq<char>, i: int)
    requires
        0 <= i <= s.len(),
        forall|j: int| 0 <= j < i ==> s[j] == 'v',
    ensures
        strip_v(s) == strip_v(s.subrange(i, s.len() as int)),
    decreases i,
{
    if i > 0 {
        lemma_strip_v_suffix(s, i - 1);
        let t = s.subrange(i - 1, s.len() as int);
        assert(t[0] == 'v');
        assert(t.drop_first() =~= s.subrange(i, s.len() as int));
    } else {
        assert(s.subrange(0, s.len() as int) =~= s);
    }
}

/// The version a release tag names: the tag without its leading `v`.
pub fn strip_version_prefix(tag: &str) -> (r: &str)
    ensures
        r@ == strip_v(tag@),
{
    let cs = chars_of(tag);
    let n = cs.len();
    let mut i: usize = 0;
    while i < n && cs[i] == 'v'
        invariant
            cs@ == tag@,
            n == cs@.len(),
            i <= n,
            forall|j: int| 0 <= j < i ==> tag@[j] == 'v',
        decreases n - i,
    {
        i = i + 1;
    }
    proof {
        lemma_strip_v_suffix(tag@, i as int);
    }
    tag.substring_char(i, n)
}

/// The name of the release file built for a platform and processor.
pub open spec fn spec_asset_name(platform: Platform, arm64: bool) -> Seq<char> {
    match platform {
        Platform::Linux => "bert-linux-amd64"@,
        Platform::MacOS => if arm64 {
            "bert-darwin-arm64"@
        } else {
            "bert-darwin-amd64"@
        },
        Platform::Windows => "bert-windows-amd64.exe"@,
    }
}

/// The name of the release file for this platform.
pub fn platform_asset_name(platform: Platform, arm64: bool) -> (r: String)
    ensures
        r@ == spec_asset_name(platform, arm64),
{
    match platform {
        Platform::Linux => String::from_str("bert-linux-amd64"),
        Platform::MacOS => if arm64 {
            String::from_str("bert-darwin-arm64")
        } else {
            String::from_str("bert-darwin-amd64")
        },
        Platform::Windows => String::from_str("bert-windows-amd64.exe"),
    }
}

/// The name of the temporary file a new executable is written to before it replaces
/// the running one.
pub fn temp_file_name(exe_file_name: &str) -> (r: String)
    ensures
        r@ == exe_file_name@ + ".new"@,
{
    concat_str(exe_file_name, ".new")
}

/// One file operation of the replacement.
#[derive(Clone, Copy, Debug, PartialEq, Eq, Structural)]
pub enum FileStep {
    /// Move the running executable aside, to its `.old` name.
    RenameCurrentAside,
    /// Move the temporary file onto the executable's path.
    RenameTempOntoCurrent,
    /// Delete the set-aside executable; a failure is ignored.
    RemoveOldBestEffort,
}

/// The replacement protocol: one atomic rename where a running executable can be
/// overwritten, else set it aside first.
pub open spec fn spec_replacement(platform: Platform) -> Seq<FileStep> {
    if platform == Platform::Windows {
        seq![FileStep::RenameCurrentAside, FileStep::RenameTempOntoCurrent, FileStep::RemoveOldBestEffort]
    } else {
        seq![FileStep::RenameTempOntoCurrent]
    }
}

/// The file operations that put the downloaded executable in place, in order.
pub fn replacement_steps(platform: Platform) -> (r: Vec<FileStep>)
    ensures
        r@ == spec_replacement(platform),
{
    let mut r: Vec<FileStep> = Vec::new();
    if platform == Platform::Windows {
        r.push(FileStep::RenameCurrentAside);
        r.push(FileStep::RenameTempOntoCurrent);
        r.push(FileStep::RemoveOldBestEffort);
    } else {
        r.push(FileStep::RenameTempOntoCurrent);
    }
    assert(r@ =~= spec_replacement(platform));
    r
}

/// The states of a self-update.
#[derive(Clone, Copy, Debug, PartialEq, Eq, Structural)]
pub enum UpdateState {
    CheckingVersion,
    DownloadingAsset,
    ReplacingBinary,
    UpToDate,
    Done,
    Failed,
}

/// Why a self-update stopped short.
#[derive(Clone, Copy, Debug, PartialEq, Eq, Structural)]
pub enum UpdateFailure {
    /// The release feed could not be read.
    FetchFailed,
    /// The release has no file for this platform.
    NoCompatibleBinary,
    /// The new executable could not be downloaded or written.
    DownloadFailed,
    /// A rename of the replacement failed: the install may be inconsistent.
    ReplaceFailed,
}

/// What the caller must do next.
#[derive(Debug)]
pub enum UpdateAction {
    /// Nothing more: the update has ended.
    Stop,
    /// Download this file and write it to the temporary path.
    Download { url: String },
    /// Put the written file in place with these file operations.
    Replace { steps: Vec<FileStep> },
}

/// A self-update from the running version to the latest release.
#[derive(Debug)]
pub struct UpdateMachine {
    pub state: UpdateState,
    pub failure: Option<UpdateFailure>,
    pub current_version: String,
    pub platform: Platform,
    pub arm64: bool,
}

/// `i` is the first asset with the wanted name.
pub open spec fn first_asset(assets: Seq<ReleaseAsset>, wanted: Seq<char>, i: int) -> bool {
    &&& 0 <= i < assets.len()
    &&& assets[i].name@ == wanted
    &&& forall|j: int| 0 <= j < i ==> assets[j].name@ != wanted
}

/// Where the asset named `wanted` is, if any.
pub fn find_asset(assets: &Vec<ReleaseAsset>, wanted: &str) -> (r: Option<usize>)
    ensures
        r is None <==> forall|j: int| 0 <= j < assets@.len() ==> assets@[j].name@ != wanted@,
        r matches Some(i) ==> first_asset(assets@, wanted@, i as int),
{
    let mut i: usize = 0;
    while i < assets.len()
        invariant
            i <= assets@.len(),
            forall|j: int| 0 <= j < i ==> assets@[j].name@ != wanted@,
        decreases assets@.len() - i,
    {
        if crate::text::str_eq(assets[i].name.as_str(), wanted) {
            return Some(i);
        }
        i = i + 1;
    }
    None
}

impl UpdateMachine {
    /// An update about to check the release feed.
    pub fn new(current_version: &str, platform: Platform, arm64: bool) -> (r: UpdateMachine)
        ensures
            r.state == UpdateState::CheckingVersion,
            r.failure is None,
            r.current_version@ == current_version@,
            r.platform == platform,
            r.arm64 == arm64,
    {
        UpdateMachine {
            state: UpdateState::CheckingVersion,
            failure: None,
            current_version: String::from_str(current_version),
            platform,
            arm64,
        }
    }

    /// Takes the fetched release (or `None` when the fetch failed) and compares versions.
    /// An equal version ends the update with nothing downloaded or replaced.
    pub fn on_release(&mut self, release: Option<&Release>) -> (r: UpdateAction)
        requires
            old(self).state == UpdateState::CheckingVersion,
            old(self).failure is None,
        ensures
            final(self).current_version == old(self).current_version,
            final(self).platform == old(self).platform,
            final(self).arm64 == old(self).arm64,
            release is None ==> final(self).state == UpdateState::Failed && final(self).failure
                == Some(UpdateFailure::FetchFailed) && r is Stop,
            release is Some ==> {
                let rel = release->0;
                let wanted = spec_asset_name(old(self).platform, old(self).arm64);
                if strip_v(rel.tag_name@) == old(self).current_version@ {
                    final(self).state == UpdateState::UpToDate && final(self).failure is None
                        && r is Stop
                } else if exists|i: int| first_asset(rel.assets@, wanted, i) {
                    final(self).state == UpdateState::DownloadingAsset && final(self).failure is None
                        && (r matches UpdateAction::Download { url } && exists|i: int|
                        first_asset(rel.assets@, wanted, i) && url@
                            == rel.assets@[i].browser_download_url@)
                } else {
                    final(self).state == UpdateState::Failed && final(self).failure == Some(
                        UpdateFailure::NoCompatibleBinary,
                    ) && r is Stop
                }
            },
    {
        match release {
            None => {
                self.state = UpdateState::Failed;
                self.failure = Some(UpdateFailure::FetchFailed);
                UpdateAction::Stop
            },
            Some(rel) => {
                let latest = strip_version_prefix(rel.tag_name.as_str());
                if crate::text::str_eq(latest, self.current_version.as_str()) {
                    self.state = UpdateState::UpToDate;
                    return UpdateAction::Stop;
                }
                let wanted = platform_asset_name(self.platform, self.arm64);
                match find_asset(&rel.assets, wanted.as_str()) {
                    Some(i) => {
                        self.state = UpdateState::DownloadingAsset;
                        let url = rel.assets[i].browser_download_url.clone();
                        UpdateAction::Download { url }
                    },
                    None => {
                        self.state = UpdateState::Failed;
                        self.failure = Some(UpdateFailure::NoCompatibleBinary);
                        proof {
                            assert forall|i: int| !first_asset(rel.assets@, wanted@, i) by {
                                if 0 <= i < rel.assets@.len() {
                                    assert(rel.assets@[i].name@ != wanted@);
                                }
                            }
                        }
                        UpdateAction::Stop
                    },
                }
            },
        }
    }

    /// Takes whether the new executable was downloaded and written to the temporary path.
    /// Until now the running executable has not been touched.
    pub fn on_downloaded(&mut self, ok: bool) -> (r: UpdateAction)
        requires
            old(self).state == UpdateState::DownloadingAsset,
        ensures
            final(self).current_version == old(self).current_version,
            final(self).platform == old(self).platform,
            final(self).arm64 == old(self).arm64,
            ok ==> final(self).failure == old(self).failure,
            ok ==> final(self).state == UpdateState::ReplacingBinary && (r matches UpdateAction::Replace {
                steps,
            } && steps@ == spec_replacement(old(self).platform)),
            !ok ==> final(self).state == UpdateState::Failed && final(self).failure == Some(
                UpdateFailure::DownloadFailed,
            ) && r is Stop,
    {
        if ok {
            self.state = UpdateState::ReplacingBinary;
            UpdateAction::Replace { steps: replacement_steps(self.platform) }
        } else {
            self.state = UpdateState::Failed;
            self.failure = Some(UpdateFailure::DownloadFailed);
            UpdateAction::Stop
        }
    }

    /// Takes whether every required rename of the replacement succeeded.
    pub fn on_replaced(&mut self, ok: bool)
        requires
            old(self).state == UpdateState::ReplacingBinary,
        ensures
            final(self).current_version == old(self).current_version,
            final(self).platform == old(self).platform,
            final(self).arm64 == old(self).arm64,
            ok ==> final(self).state == UpdateState::Done && final(self).failure
                == old(self).failure,
            !ok ==> final(self).state == UpdateState::Failed && final(self).failure == Some(
                UpdateFailure::ReplaceFailed,
            ),
    {
        if ok {
            self.state = UpdateState::Done;
        } else {
            self.state = UpdateState::Failed;
            self.failure = Some(UpdateFailure::ReplaceFailed);
        }
    }
}

} // verus!
