//! File changes: which changed files matter and what a change means.

use vstd::prelude::*;
use vstd::string::*;
use crate::text::{chars_of, str_eq, string_from};

verus! {

/// What changed on disk.
pub enum HotEvent {
    /// A fragment shader.
    FragChanged(String),
    /// A configuration file.
    ShaderConfigChanged(String),
    /// Something else.
    Other,
}

/// Where the last `c` of `s` stands, if `s` holds one.
pub open spec fn spec_last_index(s: Seq<char>, c: char) -> Option<int>
    decreases s.len(),
{
    if s.len() == 0 {
        None
    } else if s.last() == c {
        Some(s.len() - 1)
    } else {
        spec_last_index(s.drop_last(), c)
    }
}

/// The last part of a path: what follows its last separator.
pub open spec fn spec_file_name(path: Seq<char>) -> Seq<char> {
    match spec_last_index(path, '/') {
        Some(i) => path.skip(i + 1),
        None => path,
    }
}

/// The extension of a path: what follows the last dot of its last part,
/// unless that dot is the first character of the part or there is none.
pub open spec fn spec_extension(path: Seq<char>) -> Option<Seq<char>> {
    let name = spec_file_name(path);
    match spec_last_index(name, '.') {
        Some(i) => if i > 0 {
            Some(name.skip(i + 1))
        } else {
            None
        },
        None => None,
    }
}

/// Where the last `c` of `v[lo..]` stands.
fn last_index(v: &Vec<char>, lo: usize, c: char) -> (r: Option<usize>)
    requires
        lo <= v.len(),
    ensures
        match r {
            Some(i) => lo <= i < v.len() && spec_last_index(v@.skip(lo as int), c) == Some(i - lo),
            None => spec_last_index(v@.skip(lo as int), c) is None,
        },
{
    let ghost s = v@.skip(lo as int);
    let mut i: usize = v.len();
    assert(s.take(v.len() - lo) == s);
    while i > lo
        invariant
            lo <= i <= v.len(),
            s == v@.skip(lo as int),
            spec_last_index(s, c) == spec_last_index(s.take(i - lo), c),
        decreases i,
    {
        proof {
            let t = s.take(i - lo);
            assert(t.last() == v@[i - 1]);
            assert(t.drop_last() == s.take(i - lo - 1));
        }
        if v[i - 1] == c {
            return Some(i - 1);
        }
        i -= 1;
    }
    assert(s.take(0).len() == 0);
    None
}

/// The last part of a path.
pub fn file_name(path: &str) -> (r: String)
    ensures
        r@ == spec_file_name(path@),
{
    let v = chars_of(path);
    assert(v@.skip(0) == v@);
    match last_index(&v, 0, '/') {
        Some(i) => {
            let r = string_from(&v, i + 1, v.len());
            assert(v@.subrange(i + 1, v.len() as int) == v@.skip(i + 1));
            r
        },
        None => String::from_str(path),
    }
}

/// The extension of a path.
pub fn extension(path: &str) -> (r: Option<String>)
    ensures
        match r {
            Some(e) => spec_extension(path@) == Some(e@),
            None => spec_extension(path@) is None,
        },
{
    let name = file_name(path);
    let v = chars_of(name.as_str());
    assert(v@.skip(0) == v@);
    match last_index(&v, 0, '.') {
        Some(i) => if i > 0 {
            let r = string_from(&v, i + 1, v.len());
            assert(v@.subrange(i + 1, v.len() as int) == v@.skip(i + 1));
            Some(r)
        } else {
            None
        },
        None => None,
    }
}

/// What the change of a path means: by its extension, a fragment shader,
/// a configuration file or something else.
pub open spec fn spec_is_frag(path: Seq<char>) -> bool {
    spec_extension(path) == Some("frag"@)
}

/// Whether the path has the extension of a configuration file.
pub open spec fn spec_is_json(path: Seq<char>) -> bool {
    spec_extension(path) == Some("json"@)
}

/// Says what the change of a file means.
pub fn classify_change(path: &str) -> (r: HotEvent)
    ensures
        match r {
            HotEvent::FragChanged(p) => spec_is_frag(path@) && p@ == path@,
            HotEvent::ShaderConfigChanged(p) => !spec_is_frag(path@) && spec_is_json(path@) && p@
                == path@,
            HotEvent::Other => !spec_is_frag(path@) && !spec_is_json(path@),
        },
{
    match extension(path) {
        Some(e) => {
            if str_eq(e.as_str(), "frag") {
                HotEvent::FragChanged(String::from_str(path))
            } else if str_eq(e.as_str(), "json") {
                HotEvent::ShaderConfigChanged(String::from_str(path))
            } else {
                HotEvent::Other
            }
        },
        None => HotEvent::Other,
    }
}

/// Whether a change of this file is worth a reload: any fragment shader,
/// and the configuration files by name.
pub open spec fn spec_is_watched(path: Seq<char>) -> bool {
    let name = spec_file_name(path);
    ||| spec_is_frag(path)
    ||| name == "recording.json"@
    ||| name == "recording.profiles.json"@
    ||| name == "render.json"@
    ||| name == "params.json"@
}

/// Whether a change of this file is worth a reload.
pub fn is_watched(path: &str) -> (r: bool)
    ensures
        r == spec_is_watched(path@),
{
    let is_frag = match extension(path) {
        Some(e) => str_eq(e.as_str(), "frag"),
        None => false,
    };
    if is_frag {
        return true;
    }
    let name = file_name(path);
    str_eq(name.as_str(), "recording.json") || str_eq(name.as_str(), "recording.profiles.json")
        || str_eq(name.as_str(), "render.json") || str_eq(name.as_str(), "params.json")
}

/// Whether a file changed since it was last looked at, going by its
/// modification stamps then and now: it did if it has a stamp now and that
/// stamp is not the one it had. A file without a stamp counts as unchanged.
pub fn stamp_changed(before: Option<u128>, now: Option<u128>) -> (r: bool)
    ensures
        r == (now is Some && now != before),
{
    match now {
        Some(n) => match before {
            Some(b) => n != b,
            None => true,
        },
        None => false,
    }
}

} // verus!
