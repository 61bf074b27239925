//! Asset locations. A path is a text whose parts are separated by `/`; it
//! is absolute when it begins with `/`. Where the platform decides
//! otherwise which paths are absolute, `join_as` and
//! `resolve_assets_path_as` take that answer from the caller. Whether a
//! file exists is for the caller to find out too: the functions here take
//! the answer as an argument.

use vstd::prelude::*;
use vstd::string::*;
use crate::text::{chars_of, concat_str};

verus! {

/// Whether a path begins at the root.
pub open spec fn spec_is_absolute(p: Seq<char>) -> bool {
    p.len() > 0 && p[0] == '/'
}

/// `rel` seen from `base`, where the caller says whether `rel` is
/// absolute: an absolute `rel` stands for itself; a relative one is put
/// behind `base`, with one separator between them unless `base` is empty or
/// ends in one.
pub open spec fn spec_join_as(base: Seq<char>, rel: Seq<char>, rel_is_absolute: bool) -> Seq<
    char,
> {
    if rel_is_absolute {
        rel
    } else if base.len() == 0 || base.last() == '/' {
        base + rel
    } else {
        base + "/"@ + rel
    }
}

/// `rel` seen from `base`, where the paths that begin with `/` are the
/// absolute ones.
pub open spec fn spec_join(base: Seq<char>, rel: Seq<char>) -> Seq<char> {
    spec_join_as(base, rel, spec_is_absolute(rel))
}

/// Whether a path begins at the root.
pub fn is_absolute(p: &str) -> (r: bool)
    ensures
        r == spec_is_absolute(p@),
{
    let v = chars_of(p);
    v.len() > 0 && v[0] == '/'
}

/// Joins `rel` to `base`, where the caller says whether `rel` is absolute.
pub fn join_as(base: &str, rel: &str, rel_is_absolute: bool) -> (r: String)
    ensures
        r@ == spec_join_as(base@, rel@, rel_is_absolute),
{
    if rel_is_absolute {
        return String::from_str(rel);
    }
    let b = chars_of(base);
    if b.len() == 0 || b[b.len() - 1] == '/' {
        concat_str(base, rel)
    } else {
        let head = concat_str(base, "/");
        concat_str(head.as_str(), rel)
    }
}

/// Joins `rel` to `base`.
pub fn join(base: &str, rel: &str) -> (r: String)
    ensures
        r@ == spec_join(base@, rel@),
{
    join_as(base, rel, is_absolute(rel))
}

/// Resolves a configured path against the assets directory unless it is
/// already absolute.
pub fn resolve_assets_path(assets_dir: &str, s: &str) -> (r: String)
    ensures
        r@ == spec_join(assets_dir@, s@),
{
    join(assets_dir, s)
}

/// Resolves a configured path against the assets directory unless the
/// caller says that it is absolute already.
pub fn resolve_assets_path_as(assets_dir: &str, s: &str, s_is_absolute: bool) -> (r: String)
    ensures
        r@ == spec_join_as(assets_dir@, s@, s_is_absolute),
        s_is_absolute ==> r@ == s@,
        s_is_absolute == spec_is_absolute(s@) ==> r@ == spec_join(assets_dir@, s@),
{
    join_as(assets_dir, s, s_is_absolute)
}

/// The operating systems that can have a configuration of their own.
#[derive(Clone, Copy, PartialEq, Eq, Structural, Debug)]
pub enum Platform {
    Windows,
    Macos,
    Linux,
    Other,
}

/// The word for a platform in a file name.
pub open spec fn spec_platform_word(os: Platform) -> Seq<char> {
    match os {
        Platform::Windows => "windows"@,
        Platform::Macos => "macos"@,
        Platform::Linux => "linux"@,
        Platform::Other => "other"@,
    }
}

/// The word for a platform in a file name.
pub fn platform_word(os: Platform) -> (r: &'static str)
    ensures
        r@ == spec_platform_word(os),
{
    match os {
        Platform::Windows => "windows",
        Platform::Macos => "macos",
        Platform::Linux => "linux",
        Platform::Other => "other",
    }
}

/// Name of the configuration file `stem` for one platform.
pub open spec fn spec_platform_file(stem: Seq<char>, os: Platform) -> Seq<char> {
    stem + "."@ + spec_platform_word(os) + ".json"@
}

/// Name of the configuration file `stem` for all platforms.
pub open spec fn spec_common_file(stem: Seq<char>) -> Seq<char> {
    stem + ".json"@
}

/// The configuration file to read: the platform's own if it exists, else
/// the common one.
pub open spec fn spec_pick_platform_json(
    assets: Seq<char>,
    stem: Seq<char>,
    os: Platform,
    platform_file_exists: bool,
) -> Seq<char> {
    if platform_file_exists {
        spec_join(assets, spec_platform_file(stem, os))
    } else {
        spec_join(assets, spec_common_file(stem))
    }
}

/// Path of the platform's own configuration file `stem`, whose existence
/// decides what [`pick_platform_json`] returns.
pub fn platform_json_candidate(assets: &str, stem: &str, os: Platform) -> (r: String)
    ensures
        r@ == spec_join(assets@, spec_platform_file(stem@, os)),
{
    let mut name = concat_str(stem, ".");
    name.append(platform_word(os));
    name.append(".json");
    assert(name@ == spec_platform_file(stem@, os));
    join(assets, name.as_str())
}

/// Chooses the platform's own configuration file if it exists, else the
/// common one.
pub fn pick_platform_json(assets: &str, stem: &str, os: Platform, platform_file_exists: bool) -> (r:
    String)
    ensures
        r@ == spec_pick_platform_json(assets@, stem@, os, platform_file_exists),
{
    if platform_file_exists {
        platform_json_candidate(assets, stem, os)
    } else {
        let name = concat_str(stem, ".json");
        join(assets, name.as_str())
    }
}

/// The directory that holds the runtime assets.
pub struct AssetsRoot {
    path: String,
}

impl AssetsRoot {
    /// The directory as text.
    pub closed spec fn spec_path(&self) -> Seq<char> {
        self.path@
    }

    /// An assets root at a directory that the caller has found to exist.
    pub fn at(path: String) -> (r: Self)
        ensures
            r.spec_path() == path@,
    {
        AssetsRoot { path }
    }

    /// The directory.
    pub fn path(&self) -> (r: &str)
        ensures
            r@ == self.spec_path(),
    {
        self.path.as_str()
    }

    /// A path below the directory.
    pub fn join(&self, rel: &str) -> (r: String)
        ensures
            r@ == spec_join(self.spec_path(), rel@),
    {
        join(self.path.as_str(), rel)
    }

    /// Chooses the platform's own configuration file if it exists, else the
    /// common one.
    pub fn pick_platform_json(&self, stem: &str, os: Platform, platform_file_exists: bool) -> (r:
        String)
        ensures
            r@ == spec_pick_platform_json(self.spec_path(), stem@, os, platform_file_exists),
    {
        pick_platform_json(self.path.as_str(), stem, os, platform_file_exists)
    }
}

/// The assets directory to use: the one that was found, else `assets`
/// below the start directory.
pub fn find_assets_base_from(start_dir: &str, found: Option<AssetsRoot>) -> (r: String)
    ensures
        r@ == match found {
            Some(a) => a.spec_path(),
            None => spec_join(start_dir@, "assets"@),
        },
{
    match found {
        Some(a) => a.path,
        None => join(start_dir, "assets"),
    }
}

/// The places where an assets directory is looked for, nearest first:
/// `assets` below the start directory and below each directory above it.
/// `ancestors` are the start directory and the directories above it, as
/// the file system names them.
pub fn discovery_candidates(ancestors: &Vec<String>) -> (r: Vec<String>)
    ensures
        r@.len() == ancestors@.len(),
        forall|i: int| 0 <= i < r@.len() ==> (#[trigger] r@[i])@ == spec_join(ancestors@[i]@, "assets"@),
{
    let mut out: Vec<String> = Vec::new();
    let mut i: usize = 0;
    while i < ancestors.len()
        invariant
            i <= ancestors.len(),
            out@.len() == i,
            forall|j: int| 0 <= j < i ==> (#[trigger] out@[j])@ == spec_join(ancestors@[j]@, "assets"@),
        decreases ancestors.len() - i,
    {
        out.push(join(ancestors[i].as_str(), "assets"));
        i += 1;
    }
    out
}

/// Which of the platform's own configuration files exist.
#[derive(Clone, Copy, PartialEq, Eq, Structural, Debug)]
pub struct PlatformFiles {
    pub params: bool,
    pub output: bool,
    pub recording: bool,
}

/// The configuration files of a run.
pub struct ConfigPaths {
    pub assets_dir: String,
    pub render_json: String,
    pub params_json: String,
    pub output_json: String,
    pub recording_json: String,
}

/// Resolves the configuration files below an assets directory.
pub fn resolve_config_paths_from(assets: &AssetsRoot, os: Platform, exists: PlatformFiles) -> (r:
    ConfigPaths)
    ensures
        r.assets_dir@ == assets.spec_path(),
        r.render_json@ == spec_join(assets.spec_path(), "render.json"@),
        r.params_json@ == spec_pick_platform_json(assets.spec_path(), "params"@, os, exists.params),
        r.output_json@ == spec_pick_platform_json(assets.spec_path(), "output"@, os, exists.output),
        r.recording_json@ == spec_pick_platform_json(
            assets.spec_path(),
            "recording"@,
            os,
            exists.recording,
        ),
{
    ConfigPaths {
        assets_dir: String::from_str(assets.path()),
        render_json: assets.join("render.json"),
        params_json: assets.pick_platform_json("params", os, exists.params),
        output_json: assets.pick_platform_json("output", os, exists.output),
        recording_json: assets.pick_platform_json("recording", os, exists.recording),
    }
}

} // verus!
