//! Which shaders a run uses: the render configuration resolved against the
//! assets directory.

use vstd::prelude::*;
use vstd::string::*;
use crate::assets::{AssetsRoot, join, spec_join};
use crate::names::NameMap;
use crate::text::{push_decimal, spec_decimal, str_eq, views};

verus! {

/// How strictly a configuration is read.
#[derive(Clone, Copy, PartialEq, Eq, Structural, Debug)]
pub enum ConfigMode {
    /// Unknown fields are passed over and missing ones get their defaults.
    Lenient,
    /// What is not understood is an error.
    Strict,
}

/// Which configuration a message is about.
#[derive(Clone, Copy, PartialEq, Eq, Structural, Debug)]
pub enum ConfigKind {
    Render,
    Params,
    Output,
    Recording,
}

/// The version a configuration has when it names none.
pub fn default_version() -> (r: u32)
    ensures
        r == 1,
{
    1
}

/// The render configuration as it is written.
pub struct RenderJson {
    pub version: u32,
    pub frag: Option<String>,
    pub frag_variants: Option<Vec<String>>,
    pub active_frag: Option<String>,
    pub present_frag: Option<String>,
    pub frag_profile_map: Option<NameMap<String>>,
}

/// The shaders of a run, as paths.
pub struct RenderSelection {
    /// The active fragment shader.
    pub frag_path: String,
    /// The shader that presents the frame in the preview.
    pub present_frag_path: String,
    /// The fragment shaders that can be stepped through.
    pub frag_variants: Vec<String>,
    /// The place of the active shader among the variants.
    pub frag_idx: usize,
    /// The profile that goes with a fragment shader, by its path.
    pub frag_profile_map: NameMap<String>,
}

/// What can go wrong when the configuration is found and read.
pub enum EngineError {
    /// No assets directory was found.
    AssetsNotFound { start_dir: String },
    /// A file could not be read.
    Io { path: String, source: String },
    /// A file is not JSON.
    Json { path: String, source: String },
    /// A JSON value does not have the expected shape.
    JsonValue { path: String, source: String },
    /// A configuration is well-formed and makes no sense.
    InvalidConfig { path: String, msg: String },
}

impl EngineError {
    /// The error in words.
    pub open spec fn spec_message(self) -> Seq<char> {
        match self {
            EngineError::AssetsNotFound { start_dir } => "Could not locate assets/ starting from "@
                + start_dir@,
            EngineError::Io { path, source } => "I/O error for "@ + path@ + ": "@ + source@,
            EngineError::Json { path, source } => "JSON parse error for "@ + path@ + ": "@ + source@,
            EngineError::JsonValue { path, source } => "JSON deserialize error for "@ + path@ + ": "@
                + source@,
            EngineError::InvalidConfig { path, msg } => "Invalid config "@ + path@ + ": "@ + msg@,
        }
    }

    /// The error in words.
    pub fn message(&self) -> (r: String)
        ensures
            r@ == self.spec_message(),
    {
        match self {
            EngineError::AssetsNotFound { start_dir } => {
                let mut out = String::from_str("Could not locate assets/ starting from ");
                out.append(start_dir.as_str());
                out
            },
            EngineError::Io { path, source } => {
                let mut out = String::from_str("I/O error for ");
                out.append(path.as_str());
                out.append(": ");
                out.append(source.as_str());
                out
            },
            EngineError::Json { path, source } => {
                let mut out = String::from_str("JSON parse error for ");
                out.append(path.as_str());
                out.append(": ");
                out.append(source.as_str());
                out
            },
            EngineError::JsonValue { path, source } => {
                let mut out = String::from_str("JSON deserialize error for ");
                out.append(path.as_str());
                out.append(": ");
                out.append(source.as_str());
                out
            },
            EngineError::InvalidConfig { path, msg } => {
                let mut out = String::from_str("Invalid config ");
                out.append(path.as_str());
                out.append(": ");
                out.append(msg.as_str());
                out
            },
        }
    }
}

/// The fragment shader used when none is configured.
pub open spec fn spec_default_frag(assets: Seq<char>) -> Seq<char> {
    spec_join(spec_join(assets, "shaders"@), "default.frag"@)
}

/// The presenting shader used when none is configured.
pub open spec fn spec_default_present(assets: Seq<char>) -> Seq<char> {
    spec_join(spec_join(assets, "shaders"@), "present.frag"@)
}

/// Each text of a list resolved against the assets directory.
pub open spec fn spec_resolve_all(assets: Seq<char>, list: Seq<Seq<char>>) -> Seq<Seq<char>> {
    Seq::new(list.len(), |i: int| spec_join(assets, list[i]))
}

/// The variants of a configuration: the configured list if it is not
/// empty, else the single configured shader, else the default one.
pub open spec fn spec_variants(assets: Seq<char>, rj: RenderJson) -> Seq<Seq<char>> {
    let listed = match rj.frag_variants {
        Some(list) => spec_resolve_all(assets, views(list@)),
        None => Seq::empty(),
    };
    if listed.len() > 0 {
        listed
    } else {
        match rj.frag {
            Some(f) => seq![spec_join(assets, f@)],
            None => seq![spec_default_frag(assets)],
        }
    }
}

/// The place of the active variant: that of the first variant written as
/// the configuration's active one, else the first place.
pub open spec fn spec_active_index(rj: RenderJson) -> int {
    match (rj.active_frag, rj.frag_variants) {
        (Some(active), Some(list)) => if views(list@).contains(active@) {
            views(list@).index_of_first(active@)->0
        } else {
            0
        },
        _ => 0,
    }
}

/// The profile map of a configuration with its keys resolved against the
/// assets directory: the entries in order, a later one replacing an earlier
/// one with the same path.
pub open spec fn spec_resolved_profiles(
    assets: Seq<char>,
    keys: Seq<Seq<char>>,
    values: Seq<String>,
    upto: int,
) -> Map<Seq<char>, String>
    decreases upto,
{
    if upto <= 0 {
        Map::empty()
    } else {
        spec_resolved_profiles(assets, keys, values, upto - 1).insert(
            spec_join(assets, keys[upto - 1]),
            values[upto - 1],
        )
    }
}

/// The profile map of a configuration, resolved.
pub open spec fn spec_profile_map(assets: Seq<char>, rj: RenderJson) -> Map<Seq<char>, String> {
    match rj.frag_profile_map {
        Some(m) => spec_resolved_profiles(assets, m.keys(), m.values(), m.keys().len() as int),
        None => Map::empty(),
    }
}

/// The message for a version that strict reading does not accept.
pub open spec fn spec_version_message(version: u32) -> Seq<char> {
    "unsupported render.json version "@ + spec_decimal(version as nat) + " (expected 1)"@
}

/// Whether `sel` is the selection that the configuration `rj` stands for.
pub open spec fn spec_selection_of(assets: Seq<char>, rj: RenderJson, sel: RenderSelection) -> bool {
    &&& views(sel.frag_variants@) == spec_variants(assets, rj)
    &&& sel.frag_idx == spec_active_index(rj)
    &&& sel.frag_idx < sel.frag_variants@.len()
    &&& sel.frag_path@ == spec_variants(assets, rj)[spec_active_index(rj)]
    &&& sel.present_frag_path@ == match rj.present_frag {
        Some(p) => spec_join(assets, p@),
        None => spec_default_present(assets),
    }
    &&& sel.frag_profile_map.wf()
    &&& sel.frag_profile_map@ == spec_profile_map(assets, rj)
}

/// Whether `sel` is the selection of a run without a render configuration.
pub open spec fn spec_default_selection(assets: Seq<char>, sel: RenderSelection) -> bool {
    &&& views(sel.frag_variants@) == seq![spec_default_frag(assets)]
    &&& sel.frag_idx == 0
    &&& sel.frag_path@ == spec_default_frag(assets)
    &&& sel.present_frag_path@ == spec_default_present(assets)
    &&& sel.frag_profile_map.wf()
    &&& sel.frag_profile_map@ == Map::<Seq<char>, String>::empty()
}

/// Position of the first occurrence of `name`.
fn first_position(names: &Vec<String>, name: &str) -> (r: Option<usize>)
    ensures
        match r {
            Some(i) => views(names@).contains(name@) && views(names@).index_of_first(name@) == Some(
                i as int,
            ) && i < names@.len(),
            None => !views(names@).contains(name@),
        },
{
    let ghost vs = views(names@);
    let mut i: usize = 0;
    while i < names.len()
        invariant
            i <= names.len(),
            vs == views(names@),
            forall|j: int| 0 <= j < i ==> vs[j] != name@,
        decreases names.len() - i,
    {
        if str_eq(names[i].as_str(), name) {
            proof {
                assert(vs[i as int] == name@);
                vs.index_of_first_ensures(name@);
            }
            return Some(i);
        }
        i += 1;
    }
    None
}

/// Resolves the render configuration against the assets directory.
/// `render` is `None` when there is no render configuration.
fn load_render_selection_with_mode(assets: &AssetsRoot, render: Option<&RenderJson>, mode: ConfigMode) -> (r:
    Result<RenderSelection, EngineError>)
    requires
        render matches Some(rj) ==> (rj.frag_profile_map matches Some(m) ==> m.wf()),
    ensures
        match render {
            None => r matches Ok(sel) && spec_default_selection(assets.spec_path(), sel),
            Some(rj) => if mode == ConfigMode::Strict && rj.version != 1 {
                r matches Err(EngineError::InvalidConfig { path, msg }) && path@ == spec_join(
                    assets.spec_path(),
                    "render.json"@,
                ) && msg@ == spec_version_message(rj.version)
            } else {
                r matches Ok(sel) && spec_selection_of(assets.spec_path(), *rj, sel)
            },
        },
{
    let dir = assets.path();
    let shaders = join(dir, "shaders");
    let default_frag = join(shaders.as_str(), "default.frag");
    let default_present = join(shaders.as_str(), "present.frag");
    let rj = match render {
        None => {
            let mut variants: Vec<String> = Vec::new();
            variants.push(default_frag.clone());
            assert(views(variants@) =~= seq![spec_default_frag(assets.spec_path())]);
            return Ok(
                RenderSelection {
                    frag_path: default_frag,
                    present_frag_path: default_present,
                    frag_variants: variants,
                    frag_idx: 0,
                    frag_profile_map: NameMap::new(),
                },
            );
        },
        Some(rj) => rj,
    };
    if mode == ConfigMode::Strict && rj.version != 1 {
        let mut msg = String::from_str("unsupported render.json version ");
        push_decimal(&mut msg, rj.version as u64);
        msg.append(" (expected 1)");
        return Err(EngineError::InvalidConfig { path: join(dir, "render.json"), msg });
    }
    let ghost a = assets.spec_path();
    let mut variants: Vec<String> = Vec::new();
    if let Some(list) = &rj.frag_variants {
        let mut i: usize = 0;
        while i < list.len()
            invariant
                i <= list.len(),
                dir@ == a,
                views(variants@) == spec_resolve_all(a, views(list@)).take(i as int),
            decreases list.len() - i,
        {
            let ghost before = views(variants@);
            let resolved = join(dir, list[i].as_str());
            let ghost text = resolved@;
            variants.push(resolved);
            proof {
                let all = spec_resolve_all(a, views(list@));
                assert(views(list@)[i as int] == list@[i as int]@);
                assert(all[i as int] == text);
                assert(views(variants@) =~= before.push(text));
                assert(all.take(i + 1) =~= all.take(i as int).push(all[i as int]));
            }
            i += 1;
        }
        assert(spec_resolve_all(a, views(list@)).take(list.len() as int) == spec_resolve_all(
            a,
            views(list@),
        ));
    } else {
        assert(views(variants@) =~= Seq::<Seq<char>>::empty());
    }
    if variants.len() == 0 {
        let single = match &rj.frag {
            Some(f) => join(dir, f.as_str()),
            None => default_frag.clone(),
        };
        variants.push(single);
        assert(views(variants@) =~= spec_variants(a, *rj));
    }
    assert(views(variants@) == spec_variants(a, *rj));
    let mut frag_idx: usize = 0;
    if let Some(active) = &rj.active_frag {
        if let Some(list) = &rj.frag_variants {
            if let Some(pos) = first_position(list, active.as_str()) {
                frag_idx = pos;
            }
        }
    }
    let frag_path = variants[frag_idx].clone();
    let present_frag_path = match &rj.present_frag {
        Some(p) => join(dir, p.as_str()),
        None => default_present,
    };
    let mut map: NameMap<String> = NameMap::new();
    if let Some(m) = &rj.frag_profile_map {
        let n = m.len();
        let mut i: usize = 0;
        while i < n
            invariant
                i <= n,
                n == m.keys().len(),
                m.wf(),
                dir@ == a,
                map.wf(),
                map@ == spec_resolved_profiles(a, m.keys(), m.values(), i as int),
            decreases n - i,
        {
            proof {
                m.lemma_keys();
            }
            map.insert(join(dir, m.key_at(i).as_str()), m.value_at(i).clone());
            i += 1;
        }
    }
    Ok(
        RenderSelection {
            frag_path,
            present_frag_path,
            frag_variants: variants,
            frag_idx,
            frag_profile_map: map,
        },
    )
}

/// Resolves the render configuration, read leniently. `render` is `None`
/// when there is no render configuration, which selects the defaults.
pub fn load_render_selection(assets: &AssetsRoot, render: Option<&RenderJson>) -> (r: Result<
    RenderSelection,
    EngineError,
>)
    requires
        render matches Some(rj) ==> (rj.frag_profile_map matches Some(m) ==> m.wf()),
    ensures
        match render {
            None => r matches Ok(sel) && spec_default_selection(assets.spec_path(), sel),
            Some(rj) => r matches Ok(sel) && spec_selection_of(assets.spec_path(), *rj, sel),
        },
{
    load_render_selection_with_mode(assets, render, ConfigMode::Lenient)
}

/// Resolves the render configuration, read strictly: a version other than
/// one is an error.
pub fn load_render_selection_strict(assets: &AssetsRoot, render: Option<&RenderJson>) -> (r: Result<
    RenderSelection,
    EngineError,
>)
    requires
        render matches Some(rj) ==> (rj.frag_profile_map matches Some(m) ==> m.wf()),
    ensures
        match render {
            None => r matches Ok(sel) && spec_default_selection(assets.spec_path(), sel),
            Some(rj) => if rj.version != 1 {
                r matches Err(EngineError::InvalidConfig { path, msg }) && path@ == spec_join(
                    assets.spec_path(),
                    "render.json"@,
                ) && msg@ == spec_version_message(rj.version)
            } else {
                r matches Ok(sel) && spec_selection_of(assets.spec_path(), *rj, sel)
            },
        },
{
    load_render_selection_with_mode(assets, render, ConfigMode::Strict)
}

/// Checks that a configuration is a JSON object at the top. `kind` names
/// the configuration in the message.
pub fn validate_top_level_object(kind: &str, path: &str, is_object: bool) -> (r: Result<(), EngineError>)
    ensures
        match r {
            Ok(_) => is_object,
            Err(e) => !is_object && (e matches EngineError::InvalidConfig { path: p, msg } && p@
                == path@ && msg@ == kind@ + " must be a JSON object"@),
        },
{
    if is_object {
        Ok(())
    } else {
        let mut msg = String::from_str(kind);
        msg.append(" must be a JSON object");
        Err(EngineError::InvalidConfig { path: String::from_str(path), msg })
    }
}

} // verus!
