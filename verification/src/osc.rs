//! OSC address routing: the configured address table and the two built-in
//! address shapes that write a parameter directly.

use vstd::prelude::*;
use vstd::string::*;
use crate::names::NameMap;
use crate::params::Sample;
use crate::text::{
    clone_option, concat_str, lowercase_of, spec_starts_with, spec_strip_prefix, spec_trim, spec_trim_end_matches,
    spec_trim_matches, str_eq, str_starts_with, strip_prefix, to_lowercase, trim, trim_end_matches,
    trim_matches,
};

verus! {

/// One configured address: the parameter it writes and what it overrides.
#[derive(Debug)]
pub struct OscMappingCfg {
    pub addr: String,
    pub param: String,
    pub min: Option<Sample>,
    pub max: Option<Sample>,
    pub smooth: Option<Sample>,
    pub mode: Option<String>,
}

/// The OSC section of the configuration.
#[derive(Debug)]
pub struct OscCfg {
    pub enabled: bool,
    pub bind: String,
    pub prefix: String,
    pub normalized: bool,
    pub mappings: Vec<OscMappingCfg>,
}

impl Clone for OscMappingCfg {
    fn clone(&self) -> (r: Self)
        ensures
            r == *self,
    {
        OscMappingCfg {
            addr: self.addr.clone(),
            param: self.param.clone(),
            min: self.min,
            max: self.max,
            smooth: self.smooth,
            mode: clone_option(&self.mode),
        }
    }
}

impl Clone for OscCfg {
    fn clone(&self) -> (r: Self)
        ensures
            r.enabled == self.enabled,
            r.bind == self.bind,
            r.prefix == self.prefix,
            r.normalized == self.normalized,
            r.mappings@ == self.mappings@,
    {
        let mut mappings: Vec<OscMappingCfg> = Vec::new();
        let mut i: usize = 0;
        while i < self.mappings.len()
            invariant
                i <= self.mappings.len(),
                mappings@ == self.mappings@.take(i as int),
            decreases self.mappings.len() - i,
        {
            mappings.push(self.mappings[i].clone());
            assert(self.mappings@.take(i + 1) == self.mappings@.take(i as int).push(
                self.mappings@[i as int],
            ));
            i += 1;
        }
        assert(self.mappings@.take(self.mappings@.len() as int) == self.mappings@);
        OscCfg {
            enabled: self.enabled,
            bind: self.bind.clone(),
            prefix: self.prefix.clone(),
            normalized: self.normalized,
            mappings,
        }
    }
}

/// The socket address the listener binds when none is configured.
pub fn default_osc_bind() -> (r: String)
    ensures
        r@ == "0.0.0.0:9000"@,
{
    String::from_str("0.0.0.0:9000")
}

/// The address prefix used when none is configured.
pub fn default_osc_prefix() -> (r: String)
    ensures
        r@ == "/shadecore"@,
{
    String::from_str("/shadecore")
}

impl Default for OscCfg {
    fn default() -> (r: Self)
        ensures
            !r.enabled,
            r.bind@ == "0.0.0.0:9000"@,
            r.prefix@ == "/shadecore"@,
            r.normalized,
            r.mappings@.len() == 0,
    {
        OscCfg {
            enabled: false,
            bind: default_osc_bind(),
            prefix: default_osc_prefix(),
            normalized: true,
            mappings: Vec::new(),
        }
    }
}

/// A configured address after resolution: the parameter, the overrides and
/// whether the input is read as normalized.
#[derive(Debug)]
pub struct OscMappingResolved {
    pub param: String,
    pub min: Option<Sample>,
    pub max: Option<Sample>,
    pub smooth: Option<Sample>,
    pub normalized: bool,
}

/// The full address a configured address stands for, given the prefix
/// without its trailing slashes. An address that already begins with the
/// prefix is full; one that begins with `/param/` or `/raw/` is put behind
/// the prefix; any other address with a leading slash is taken as it is;
/// one without a leading slash is put behind the prefix and a slash.
pub open spec fn spec_full_address(prefix: Seq<char>, a: Seq<char>) -> Seq<char> {
    if spec_starts_with(a, prefix) {
        a
    } else if a.len() > 0 && a[0] == '/' {
        if spec_starts_with(a, "/param/"@) || spec_starts_with(a, "/raw/"@) {
            prefix + a
        } else {
            a
        }
    } else {
        prefix + "/"@ + a
    }
}

/// Whether a mapping whose lower-cased mode word is `lowered` reads its
/// input as normalized: `raw` says no; `normalized`, `norm` and `param` say
/// yes; any other word, or none, leaves it to the default.
pub open spec fn spec_mode_normalized(lowered: Option<Seq<char>>, default: bool) -> bool {
    match lowered {
        Some(l) => if l == "raw"@ {
            false
        } else if l == "normalized"@ || l == "norm"@ || l == "param"@ {
            true
        } else {
            default
        },
        None => default,
    }
}

/// Decides from a lower-cased mode word whether input is normalized.
pub fn mode_normalized(lowered: Option<&str>, default: bool) -> (r: bool)
    ensures
        r == spec_mode_normalized(
            match lowered {
                Some(l) => Some(l@),
                None => None,
            },
            default,
        ),
{
    match lowered {
        Some(l) => {
            if str_eq(l, "raw") {
                false
            } else if str_eq(l, "normalized") || str_eq(l, "norm") || str_eq(l, "param") {
                true
            } else {
                default
            }
        },
        None => default,
    }
}

/// The lower-cased mode word of a mapping.
pub open spec fn lowered_mode(mode: Option<String>) -> Option<Seq<char>> {
    match mode {
        Some(m) => Some(lowercase_of(m@)),
        None => None,
    }
}

/// What one configured mapping resolves to.
pub open spec fn spec_resolved(m: OscMappingCfg, default_normalized: bool) -> OscMappingResolved {
    OscMappingResolved {
        param: m.param,
        min: m.min,
        max: m.max,
        smooth: m.smooth,
        normalized: spec_mode_normalized(lowered_mode(m.mode), default_normalized),
    }
}

/// The address table of a configuration: the mappings in order, each under
/// its full address, those with an empty address left out; a later mapping
/// replaces an earlier one under the same address.
pub open spec fn spec_address_table(
    mappings: Seq<OscMappingCfg>,
    prefix: Seq<char>,
    default_normalized: bool,
) -> Map<Seq<char>, OscMappingResolved>
    decreases mappings.len(),
{
    if mappings.len() == 0 {
        Map::empty()
    } else {
        let rest = spec_address_table(mappings.drop_last(), prefix, default_normalized);
        let m = mappings.last();
        let a = spec_trim(m.addr@);
        if a.len() == 0 {
            rest
        } else {
            rest.insert(spec_full_address(prefix, a), spec_resolved(m, default_normalized))
        }
    }
}

/// Computes the full address of a trimmed, non-empty configured address.
pub fn full_address(prefix: &str, a: &str) -> (r: String)
    ensures
        r@ == spec_full_address(prefix@, a@),
{
    if str_starts_with(a, prefix) {
        String::from_str(a)
    } else if str_starts_with(a, "/") {
        proof {
            reveal_strlit("/");
            assert(a@.take(1)[0] == a@[0]);
        }
        if str_starts_with(a, "/param/") || str_starts_with(a, "/raw/") {
            concat_str(prefix, a)
        } else {
            String::from_str(a)
        }
    } else {
        proof {
            reveal_strlit("/");
            if a@.len() > 0 && a@[0] == '/' {
                assert(a@.take(1) == "/"@);
            }
        }
        let head = concat_str(prefix, "/");
        concat_str(head.as_str(), a)
    }
}

/// The routing state of the OSC listener: the configuration and the table
/// from full address to resolved mapping built from it.
pub struct OscRuntime {
    cfg: OscCfg,
    map: NameMap<OscMappingResolved>,
}

impl OscRuntime {
    /// The table is well formed.
    pub closed spec fn wf(&self) -> bool {
        self.map.wf()
    }

    /// The configuration the runtime was built from.
    pub closed spec fn spec_cfg(&self) -> OscCfg {
        self.cfg
    }

    /// The address table.
    pub closed spec fn table(&self) -> Map<Seq<char>, OscMappingResolved> {
        self.map@
    }

    /// Builds the address table of a configuration.
    pub fn new(cfg: OscCfg) -> (r: Self)
        ensures
            r.wf(),
            r.spec_cfg() == cfg,
            r.table() == spec_address_table(
                cfg.mappings@,
                spec_trim_end_matches(cfg.prefix@, '/'),
                cfg.normalized,
            ),
    {
        let mut map: NameMap<OscMappingResolved> = NameMap::new();
        let prefix = trim_end_matches(cfg.prefix.as_str(), '/');
        let mut i: usize = 0;
        while i < cfg.mappings.len()
            invariant
                i <= cfg.mappings.len(),
                map.wf(),
                prefix@ == spec_trim_end_matches(cfg.prefix@, '/'),
                map@ == spec_address_table(cfg.mappings@.take(i as int), prefix@, cfg.normalized),
            decreases cfg.mappings.len() - i,
        {
            let m = &cfg.mappings[i];
            proof {
                assert(cfg.mappings@.take(i + 1).drop_last() == cfg.mappings@.take(i as int));
                assert(cfg.mappings@.take(i + 1).last() == cfg.mappings@[i as int]);
            }
            let a = trim(m.addr.as_str());
            if !a.as_str().is_empty() {
                let full = full_address(prefix.as_str(), a.as_str());
                let normalized = match &m.mode {
                    Some(word) => {
                        let lowered = to_lowercase(word.as_str());
                        mode_normalized(Some(lowered.as_str()), cfg.normalized)
                    },
                    None => mode_normalized(None, cfg.normalized),
                };
                map.insert(
                    full,
                    OscMappingResolved {
                        param: m.param.clone(),
                        min: m.min,
                        max: m.max,
                        smooth: m.smooth,
                        normalized,
                    },
                );
            }
            i += 1;
        }
        assert(cfg.mappings@.take(cfg.mappings@.len() as int) == cfg.mappings@);
        OscRuntime { cfg, map }
    }

    /// The configuration the runtime was built from.
    pub fn cfg(&self) -> (r: &OscCfg)
        ensures
            *r == self.spec_cfg(),
    {
        &self.cfg
    }

    /// The mapping configured for exactly this address.
    pub fn lookup(&self, addr: &str) -> (r: Option<&OscMappingResolved>)
        requires
            self.wf(),
        ensures
            match r {
                Some(m) => self.table().contains_key(addr@) && *m == self.table()[addr@],
                None => !self.table().contains_key(addr@),
            },
    {
        self.map.get(addr)
    }
}

/// What a built-in address writes: the parameter named by its last part,
/// and whether it was sent to the normalized (`true`) or raw shape.
pub struct DirectRoute {
    pub normalized_shape: bool,
    pub name: String,
}

/// The built-in route of an address, if it has one: behind the prefix
/// (without trailing slashes) stands `/param/` or `/raw/` and then the
/// parameter name, which is taken without slashes at either end and must
/// not be empty. White space round the address does not count.
pub open spec fn spec_direct_route(prefix: Seq<char>, addr: Seq<char>) -> Option<(bool, Seq<char>)> {
    let p = spec_trim_end_matches(prefix, '/');
    let a = spec_trim(addr);
    let as_param = spec_strip_prefix(a, p + "/param/"@);
    let as_raw = spec_strip_prefix(a, p + "/raw/"@);
    if as_param is Some {
        let name = spec_trim_matches(as_param->0, '/');
        if name.len() == 0 {
            None
        } else {
            Some((true, name))
        }
    } else if as_raw is Some {
        let name = spec_trim_matches(as_raw->0, '/');
        if name.len() == 0 {
            None
        } else {
            Some((false, name))
        }
    } else {
        None
    }
}

/// Reads an address as one of the two built-in shapes.
pub fn direct_route(prefix: &str, addr: &str) -> (r: Option<DirectRoute>)
    ensures
        match r {
            Some(d) => spec_direct_route(prefix@, addr@) == Some((d.normalized_shape, d.name@)),
            None => spec_direct_route(prefix@, addr@) is None,
        },
{
    let p = trim_end_matches(prefix, '/');
    let a = trim(addr);
    let p_param = concat_str(p.as_str(), "/param/");
    let p_raw = concat_str(p.as_str(), "/raw/");
    let (shape, rest) = match strip_prefix(a.as_str(), p_param.as_str()) {
        Some(rest) => (true, rest),
        None => match strip_prefix(a.as_str(), p_raw.as_str()) {
            Some(rest) => (false, rest),
            None => {
                return None;
            },
        },
    };
    let name = trim_matches(rest.as_str(), '/');
    if name.as_str().is_empty() {
        return None;
    }
    Some(DirectRoute { normalized_shape: shape, name })
}

} // verus!
