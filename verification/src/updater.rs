//! Rules of the self-updater: which release asset fits a platform, how a
//! release tag reads as a version, where release metadata is fetched from,
//! and which archive format an asset uses.

use vstd::prelude::*;
use crate::config::{is_non_blank, non_blank};
use crate::paths::{binary_backup_path, spec_backup_path, spec_file_name, file_name, last_dot, last_dot_in};
use crate::text::{chars_of, copy_range, push_str, string_of};
use crate::types::str_eq;
use crate::version::{parse_semver, semver_parse, SemVer};

verus! {

/// The repository whose releases are used by default.
pub const DEFAULT_REPO: &'static str = "memxlab/memx";

/// Why no release asset fits the platform.
#[derive(Debug, Clone, PartialEq, Eq)]
pub enum AssetError {
    /// Linux on aarch64 has no published build yet.
    LinuxArm64NotPublished,
    /// Windows on arm64 has no published build yet.
    WindowsArm64NotPublished,
    /// No build exists for this operating system and architecture.
    Unsupported { os: String, arch: String },
}

/// The release asset for an operating system and architecture.
pub open spec fn spec_asset_name(os: Seq<char>, arch: Seq<char>) -> Option<Seq<char>> {
    if os == "macos"@ && (arch == "x86_64"@ || arch == "aarch64"@) {
        Some("memx-darwin-universal.tar.gz"@)
    } else if os == "linux"@ && arch == "x86_64"@ {
        Some("memx-linux-x86_64.tar.gz"@)
    } else if os == "windows"@ && arch == "x86_64"@ {
        Some("memx-windows-x86_64.zip"@)
    } else {
        None
    }
}

/// Law: the published builds are exactly those for macOS on x86_64 and on
/// aarch64, which share one universal archive, and for Linux and Windows on
/// x86_64; every other platform, Linux and Windows on aarch64 among them,
/// has none.
pub proof fn law_published_assets(os: Seq<char>, arch: Seq<char>)
    ensures
        spec_asset_name(os, arch) is Some <==> ((os == "macos"@ && (arch == "x86_64"@ || arch
            == "aarch64"@)) || (arch == "x86_64"@ && (os == "linux"@ || os == "windows"@))),
        os == "macos"@ && (arch == "x86_64"@ || arch == "aarch64"@) ==> spec_asset_name(os, arch)
            == Some("memx-darwin-universal.tar.gz"@),
        os == "linux"@ && arch == "x86_64"@ ==> spec_asset_name(os, arch) == Some(
            "memx-linux-x86_64.tar.gz"@,
        ),
        os == "windows"@ && arch == "x86_64"@ ==> spec_asset_name(os, arch) == Some(
            "memx-windows-x86_64.zip"@,
        ),
        spec_asset_name("macos"@, "x86_64"@) == spec_asset_name("macos"@, "aarch64"@),
{
    reveal_strlit("macos");
    reveal_strlit("linux");
    reveal_strlit("windows");
    reveal_strlit("x86_64");
    reveal_strlit("aarch64");
    assert("macos"@[0] != "linux"@[0]);
    assert("macos"@.len() != "windows"@.len());
    assert("linux"@.len() != "windows"@.len());
    assert("x86_64"@.len() != "aarch64"@.len());
}

/// Names the release asset to download for `os` and `arch` (as
/// `std::env::consts` spells them).
pub fn asset_name_for(os: &str, arch: &str) -> (r: Result<&'static str, AssetError>)
    ensures
        match r {
            Ok(name) => spec_asset_name(os@, arch@) == Some(name@),
            Err(e) => spec_asset_name(os@, arch@) is None && match e {
                AssetError::LinuxArm64NotPublished => os@ == "linux"@ && arch@ == "aarch64"@,
                AssetError::WindowsArm64NotPublished => os@ == "windows"@ && arch@ == "aarch64"@,
                AssetError::Unsupported { os: o, arch: a } => o@ == os@ && a@ == arch@ && !(os@
                    == "linux"@ && arch@ == "aarch64"@) && !(os@ == "windows"@ && arch@
                    == "aarch64"@),
            },
        },
{
    proof {
        reveal_strlit("macos");
        reveal_strlit("linux");
        reveal_strlit("windows");
        reveal_strlit("x86_64");
        reveal_strlit("aarch64");
        assert("macos"@[0] != "linux"@[0]);
        assert("macos"@.len() != "windows"@.len());
        assert("linux"@.len() != "windows"@.len());
        assert("x86_64"@.len() != "aarch64"@.len());
    }
    if str_eq(os, "macos") && (str_eq(arch, "x86_64") || str_eq(arch, "aarch64")) {
        Ok("memx-darwin-universal.tar.gz")
    } else if str_eq(os, "linux") && str_eq(arch, "x86_64") {
        Ok("memx-linux-x86_64.tar.gz")
    } else if str_eq(os, "windows") && str_eq(arch, "x86_64") {
        Ok("memx-windows-x86_64.zip")
    } else if str_eq(os, "linux") && str_eq(arch, "aarch64") {
        Err(AssetError::LinuxArm64NotPublished)
    } else if str_eq(os, "windows") && str_eq(arch, "aarch64") {
        Err(AssetError::WindowsArm64NotPublished)
    } else {
        Err(AssetError::Unsupported { os: os.to_owned(), arch: arch.to_owned() })
    }
}


/// `s` without its leading `v` characters.
pub open spec fn strip_leading_v(s: Seq<char>) -> Seq<char>
    decreases s.len(),
{
    if s.len() > 0 && s[0] == 'v' {
        strip_leading_v(s.drop_first())
    } else {
        s
    }
}

/// A release tag that is not a semantic version.
#[derive(Debug, Clone, PartialEq, Eq)]
pub struct InvalidTag {
    pub tag: String,
}

/// Reads a release tag as a version: leading `v` characters are dropped and
/// the rest must be a semantic version.
pub fn normalize_tag(tag_name: &str) -> (r: Result<SemVer, InvalidTag>)
    ensures
        r is Ok <==> semver_parse(strip_leading_v(tag_name@)) is Some,
        r is Ok ==> semver_parse(strip_leading_v(tag_name@)) == Some(r.unwrap()@),
        r matches Err(e) ==> e.tag@ == tag_name@,
{
    let v = chars_of(tag_name);
    let mut i: usize = 0;
    assert(v@.skip(0) =~= v@);
    while i < v.len() && v[i] == 'v'
        invariant
            0 <= i <= v.len(),
            strip_leading_v(v@) == strip_leading_v(v@.skip(i as int)),
        decreases v.len() - i,
    {
        assert(v@.skip(i as int).drop_first() =~= v@.skip(i + 1));
        i = i + 1;
    }
    let rest = copy_range(&v, i, v.len());
    assert(rest@ =~= v@.skip(i as int));
    let text = string_of(&rest);
    match parse_semver(text.as_str()) {
        Ok(version) => Ok(version),
        Err(_) => Err(InvalidTag { tag: tag_name.to_owned() }),
    }
}


/// Law: leading `v` characters of a release tag are ignored, so a tag reads
/// as a version exactly when it does without them.
pub proof fn law_leading_v_is_ignored(tag: Seq<char>)
    ensures
        strip_leading_v(seq!['v'] + tag) == strip_leading_v(tag),
        semver_parse(strip_leading_v(seq!['v'] + tag)) == semver_parse(strip_leading_v(tag)),
{
    assert((seq!['v'] + tag).drop_first() =~= tag);
}

/// Where release metadata is fetched: the configured URL when one is set
/// and not blank, otherwise the latest release of the configured repository
/// (the default repository when none is set) on GitHub.
pub open spec fn spec_release_api_url(env_url: Option<Seq<char>>, env_repo: Option<Seq<char>>) -> Seq<char> {
    if env_url matches Some(u) && non_blank(u) {
        env_url->0
    } else {
        "https://api.github.com/repos/"@ + match env_repo {
            Some(r) => r,
            None => DEFAULT_REPO@,
        } + "/releases/latest"@
    }
}

/// The URL release metadata is fetched from, given the values of
/// `MEMX_RELEASES_API_URL` and `MEMX_REPO`.
pub fn release_api_url(env_url: Option<String>, env_repo: Option<String>) -> (r: String)
    ensures
        r@ == spec_release_api_url(
            match env_url {
                Some(u) => Some(u@),
                None => None,
            },
            match env_repo {
                Some(x) => Some(x@),
                None => None,
            },
        ),
{
    if let Some(u) = &env_url {
        if is_non_blank(u.as_str()) {
            return u.clone();
        }
    }
    let mut out: Vec<char> = Vec::new();
    push_str(&mut out, "https://api.github.com/repos/");
    match &env_repo {
        Some(r) => push_str(&mut out, r.as_str()),
        None => push_str(&mut out, DEFAULT_REPO),
    }
    push_str(&mut out, "/releases/latest");
    string_of(&out)
}

/// The position of the first asset named `name`, if any.
pub fn find_asset(names: &Vec<String>, name: &str) -> (r: Option<usize>)
    ensures
        match r {
            Some(i) => i < names@.len() && names@[i as int]@ == name@ && forall|j: int|
                0 <= j < i ==> (#[trigger] names@[j])@ != name@,
            None => forall|j: int| 0 <= j < names@.len() ==> (#[trigger] names@[j])@ != name@,
        },
{
    let mut i: usize = 0;
    while i < names.len()
        invariant
            0 <= i <= names.len(),
            forall|j: int| 0 <= j < i ==> (#[trigger] names@[j])@ != name@,
        decreases names.len() - i,
    {
        if str_eq(names[i].as_str(), name) {
            return Some(i);
        }
        i = i + 1;
    }
    None
}

/// The extension of the final component of `path`: the text after its last
/// `.`, when that `.` is not the component's first character.
pub open spec fn spec_extension(path: Seq<char>, windows: bool) -> Option<Seq<char>> {
    match spec_file_name(path, windows) {
        Some(n) => if last_dot(n) > 0 {
            Some(n.skip(last_dot(n) + 1))
        } else {
            None
        },
        None => None,
    }
}

/// Whether an update archive is a zip file (otherwise it is a gzipped tar).
pub fn is_zip_archive(archive_path: &str, windows: bool) -> (r: bool)
    ensures
        r == (spec_extension(archive_path@, windows) == Some(seq!['z', 'i', 'p'])),
{
    match file_name(archive_path, windows) {
        None => false,
        Some(n) => {
            let v = chars_of(n.as_str());
            let k = last_dot_in(&v);
            if k <= 1 {
                return false;
            }
            let ext = copy_range(&v, k, v.len());
            assert(ext@ =~= v@.skip(k as int));
            let z = chars_of("zip");
            proof {
                reveal_strlit("zip");
                assert(z@ =~= seq!['z', 'i', 'p']);
            }
            crate::text::chars_eq(&ext, &z)
        },
    }
}

/// Where the previous binary is kept during an update: next to it, with
/// `.bak` appended to its name.
pub fn backup_path(binary_path: &str, windows: bool) -> (r: String)
    ensures
        r@ == spec_backup_path(binary_path@, windows),
{
    binary_backup_path(binary_path, windows)
}


// ── The latest release ─────────────────────────────────────────────────────

/// A downloadable file of a release.
#[derive(Debug, Clone, PartialEq, Eq)]
pub struct ReleaseAsset {
    pub name: String,
    pub browser_download_url: String,
}

/// The release an update installs: its version and the asset to download.
pub struct ResolvedRelease {
    pub version: SemVer,
    pub asset_name: String,
    pub asset_url: String,
}

/// Why the latest release cannot be installed.
#[derive(Debug, Clone, PartialEq, Eq)]
pub enum ReleaseError {
    /// The release has no asset with the platform's name.
    MissingAsset { tag: String, asset: String },
    /// The release tag is not a version.
    InvalidTag(InvalidTag),
}

/// Whether some asset of `assets` is named `name`.
pub open spec fn has_asset(assets: Seq<ReleaseAsset>, name: Seq<char>) -> bool {
    exists|i: int| 0 <= i < assets.len() && (#[trigger] assets[i]).name@ == name
}

/// Picks the asset named `asset_name` (the first one, if several are) from
/// a release and reads the release's tag as its version. A missing asset is
/// reported before a malformed tag.
pub fn resolve_release(tag_name: &str, assets: &Vec<ReleaseAsset>, asset_name: &str) -> (r: Result<ResolvedRelease, ReleaseError>)
    ensures
        !has_asset(assets@, asset_name@) ==> (r matches Err(ReleaseError::MissingAsset { tag, asset }) && tag@ == tag_name@ && asset@ == asset_name@),
        has_asset(assets@, asset_name@) && semver_parse(strip_leading_v(tag_name@)) is None ==> (r matches Err(ReleaseError::InvalidTag(e)) && e.tag@ == tag_name@),
        has_asset(assets@, asset_name@) && semver_parse(strip_leading_v(tag_name@)) is Some ==> (r matches Ok(rel) && semver_parse(strip_leading_v(tag_name@)) == Some(rel.version@) && exists|i: int| {
            &&& 0 <= i < assets@.len()
            &&& (#[trigger] assets@[i]).name@ == asset_name@
            &&& forall|j: int| 0 <= j < i ==> (#[trigger] assets@[j]).name@ != asset_name@
            &&& rel.asset_name@ == assets@[i].name@
            &&& rel.asset_url@ == assets@[i].browser_download_url@
        }),
{
    let mut i: usize = 0;
    while i < assets.len()
        invariant
            0 <= i <= assets.len(),
            forall|j: int| 0 <= j < i ==> (#[trigger] assets@[j]).name@ != asset_name@,
        decreases assets.len() - i,
    {
        if str_eq(assets[i].name.as_str(), asset_name) {
            let found = &assets[i];
            return match normalize_tag(tag_name) {
                Ok(version) => Ok(ResolvedRelease {
                    version,
                    asset_name: found.name.clone(),
                    asset_url: found.browser_download_url.clone(),
                }),
                Err(e) => Err(ReleaseError::InvalidTag(e)),
            };
        }
        i = i + 1;
    }
    Err(ReleaseError::MissingAsset { tag: tag_name.to_owned(), asset: asset_name.to_owned() })
}

/// The name of the MemX binary inside a release archive.
pub fn expected_binary_name(windows: bool) -> (r: &'static str)
    ensures
        r@ == (if windows { "memx.exe"@ } else { "memx"@ }),
{
    if windows { "memx.exe" } else { "memx" }
}

} // verus!
