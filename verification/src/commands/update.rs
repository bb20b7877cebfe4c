//! `update`: which release to fetch, where it lives, and what is reported
//! on the way. The requests and the file copies are made by the caller.
use vstd::prelude::*;
use crate::error::RefactorError;
use crate::languages::json::JsonValue;
use crate::mcp::{get_str, jget, jstr};
use crate::output::{line_views, out_heading, out_info, out_progress, out_progress_done, out_success, wrote, LineKind, Output};
use crate::text::{chars_of, concat, spec_trim_start_pat, str_eq, string_from, trim_start_pat};

verus! {

/// The repository whose releases are fetched.
pub open spec fn spec_repository() -> Seq<char> {
    "aungpwint/refactor"@
}

/// The address of the latest release's description.
pub open spec fn spec_latest_release_url() -> Seq<char> {
    "https://api.github.com/repos/"@ + spec_repository() + "/releases/latest"@
}

/// The address of the latest release's description.
pub fn latest_release_url() -> (r: String)
    ensures
        r@ == spec_latest_release_url(),
{
    concat(concat("https://api.github.com/repos/", "aungpwint/refactor").as_str(), "/releases/latest")
}

/// A release tag without its leading `v`s.
pub open spec fn spec_release_version(tag: Seq<char>) -> Seq<char> {
    spec_trim_start_pat(tag, seq!['v'])
}

/// The version a release tag names: the tag without its leading `v`s.
pub fn release_version(tag: &str) -> (r: String)
    ensures
        r@ == spec_release_version(tag@),
{
    let v = vec!['v'];
    proof {
        assert(v@ =~= seq!['v']);
    }
    string_from(&trim_start_pat(&chars_of(tag), &v))
}

/// The version named by a release description: its string member
/// `tag_name` without leading `v`s; a configuration error without one.
pub fn latest_version_of(release: &JsonValue) -> (r: Result<String, RefactorError>)
    ensures
        jstr(jget(*release, "tag_name"@)) matches Some(t) ==> (r matches Ok(v) && v@ == spec_release_version(t)),
        jstr(jget(*release, "tag_name"@)) is None ==> (r matches Err(RefactorError::Config(m)) && m@ == "Missing tag_name in response"@),
{
    match get_str(release, "tag_name") {
        Some(t) => Ok(release_version(t.as_str())),
        None => Err(RefactorError::Config(string_from(&chars_of("Missing tag_name in response")))),
    }
}

/// The asset built for an operating system and an architecture, with the
/// suffix that the download address adds to it.
pub open spec fn spec_asset(os: Seq<char>, arch: Seq<char>) -> Option<(Seq<char>, Seq<char>)> {
    if os == "windows"@ && arch == "x86_64"@ {
        Some(("refactor-windows-x64.exe"@, ".exe"@))
    } else if os == "macos"@ && arch == "aarch64"@ {
        Some(("refactor-macos-arm64"@, Seq::empty()))
    } else if os == "macos"@ && arch == "x86_64"@ {
        Some(("refactor-macos-x64"@, Seq::empty()))
    } else if os == "linux"@ && arch == "aarch64"@ {
        Some(("refactor-linux-arm64"@, Seq::empty()))
    } else if os == "linux"@ && arch == "x86_64"@ {
        Some(("refactor-linux-x64"@, Seq::empty()))
    } else {
        None
    }
}

/// The download address of a version's asset.
pub open spec fn spec_download_url(version: Seq<char>, asset: Seq<char>, suffix: Seq<char>) -> Seq<char> {
    "https://github.com/"@ + spec_repository() + "/releases/download/v"@ + version + "/"@ + asset + suffix
}

/// Where the asset of `version` for the platform `os`-`arch` is
/// downloaded from; a configuration error for a platform without one.
pub fn download_url(version: &str, os: &str, arch: &str) -> (r: Result<String, RefactorError>)
    ensures
        spec_asset(os@, arch@) matches Some(a) ==> (r matches Ok(u) && u@ == spec_download_url(version@, a.0, a.1)),
        spec_asset(os@, arch@) is None ==> (r matches Err(RefactorError::Config(m)) && m@ == "Unsupported platform: "@ + os@ + "-"@ + arch@),
{
    let (asset, suffix) = if str_eq(os, "windows") && str_eq(arch, "x86_64") {
        ("refactor-windows-x64.exe", ".exe")
    } else if str_eq(os, "macos") && str_eq(arch, "aarch64") {
        ("refactor-macos-arm64", "")
    } else if str_eq(os, "macos") && str_eq(arch, "x86_64") {
        ("refactor-macos-x64", "")
    } else if str_eq(os, "linux") && str_eq(arch, "aarch64") {
        ("refactor-linux-arm64", "")
    } else if str_eq(os, "linux") && str_eq(arch, "x86_64") {
        ("refactor-linux-x64", "")
    } else {
        return Err(RefactorError::Config(concat(concat(concat("Unsupported platform: ", os).as_str(), "-").as_str(), arch)));
    };
    proof {
        reveal_strlit("");
    }
    let base = concat(concat("https://github.com/", "aungpwint/refactor").as_str(), "/releases/download/v");
    let with_version = concat(concat(base.as_str(), version).as_str(), "/");
    Ok(concat(concat(with_version.as_str(), asset).as_str(), suffix))
}

/// What `update` writes before the latest release is known.
pub open spec fn start_lines(o: Output, current: Seq<char>) -> Seq<(LineKind, Seq<char>)> {
    out_heading(o, "Self-Update"@) + out_info(o, "Current version: v"@ + current) + out_progress(o, "Checking for latest release"@)
}

/// Writes the heading and the current version, and starts the release check.
pub fn start(output: &mut Output, current: &str)
    ensures
        wrote(*final(output), *old(output), start_lines(*old(output), current@)),
{
    let ghost o = *output;
    let ghost s0 = line_views(output.lines@);
    output.heading("Self-Update");
    output.info(concat("Current version: v", current).as_str());
    output.progress("Checking for latest release");
    assert(line_views(output.lines@) =~= s0 + start_lines(o, current@));
}

/// What `update` writes once the latest version is known: whether it is
/// already installed, or the start of the download.
pub open spec fn compare_lines(o: Output, current: Seq<char>, latest: Seq<char>) -> Seq<(LineKind, Seq<char>)> {
    out_progress_done(o) + out_info(o, "Latest version:  v"@ + latest) + if current == latest {
        out_success(o, "Already up to date!"@)
    } else {
        out_info(o, "Updating v"@ + current + " -> v"@ + latest) + out_progress(o, "Downloading update"@)
    }
}

/// Reports the latest version; true when it is the one installed (the
/// update then ends with 0).
pub fn compare(output: &mut Output, current: &str, latest: &str) -> (up_to_date: bool)
    ensures
        up_to_date == (current@ == latest@),
        wrote(*final(output), *old(output), compare_lines(*old(output), current@, latest@)),
{
    let ghost o = *output;
    let ghost s0 = line_views(output.lines@);
    output.progress_done();
    output.info(concat("Latest version:  v", latest).as_str());
    let same = str_eq(current, latest);
    if same {
        output.success("Already up to date!");
    } else {
        let m = concat(concat(concat("Updating v", current).as_str(), " -> v").as_str(), latest);
        output.info(m.as_str());
        output.progress("Downloading update");
    }
    assert(line_views(output.lines@) =~= s0 + compare_lines(o, current@, latest@));
    same
}

/// What `update` writes between the download and the installation.
pub open spec fn installing_lines(o: Output) -> Seq<(LineKind, Seq<char>)> {
    out_progress_done(o) + out_progress(o, "Installing update"@)
}

/// Ends the download note and starts the installation note.
pub fn installing(output: &mut Output)
    ensures
        wrote(*final(output), *old(output), installing_lines(*old(output))),
{
    let ghost o = *output;
    let ghost s0 = line_views(output.lines@);
    output.progress_done();
    output.progress("Installing update");
    assert(line_views(output.lines@) =~= s0 + installing_lines(o));
}

/// What `update` writes once the new binary is in place.
pub open spec fn finish_lines(o: Output, latest: Seq<char>) -> Seq<(LineKind, Seq<char>)> {
    out_progress_done(o) + out_success(o, "Updated to v"@ + latest + "!"@)
}

/// Ends the installation note and reports the new version; the update ends
/// with 0.
pub fn finish(output: &mut Output, latest: &str) -> (r: i32)
    ensures
        r == 0,
        wrote(*final(output), *old(output), finish_lines(*old(output), latest@)),
{
    let ghost o = *output;
    let ghost s0 = line_views(output.lines@);
    output.progress_done();
    output.success(concat(concat("Updated to v", latest).as_str(), "!").as_str());
    assert(line_views(output.lines@) =~= s0 + finish_lines(o, latest@));
    0
}

} // verus!
