//! Parameter definitions and presets as they come out of the configuration.

use vstd::prelude::*;
use crate::midi::{MidiBinding, MidiGlobalCfg};
use crate::names::NameMap;
use crate::osc::OscCfg;

verus! {

/// A parameter value as an opaque 32-bit word.
///
/// The store moves and compares samples; it never computes with them. The
/// arithmetic that scales and smooths them belongs to the caller, who hands
/// it in as a function.
#[derive(Clone, Copy, PartialEq, Eq, Structural, Debug)]
pub struct Sample {
    pub bits: u32,
}

/// Bits of the sample that encodes the number zero.
pub const ZERO_BITS: u32 = 0;

/// Bits of the sample that encodes the number one.
pub const ONE_BITS: u32 = 0x3F80_0000;

impl Sample {
    /// The sample that encodes the number zero.
    pub open spec fn spec_zero() -> Sample {
        Sample { bits: ZERO_BITS }
    }

    /// The sample that encodes the number one.
    pub open spec fn spec_one() -> Sample {
        Sample { bits: ONE_BITS }
    }

    /// The sample that encodes the number zero.
    #[verifier::when_used_as_spec(spec_zero)]
    pub fn zero() -> (r: Sample)
        ensures
            r == Sample::spec_zero(),
    {
        Sample { bits: ZERO_BITS }
    }

    /// The sample that encodes the number one.
    #[verifier::when_used_as_spec(spec_one)]
    pub fn one() -> (r: Sample)
        ensures
            r == Sample::spec_one(),
    {
        Sample { bits: ONE_BITS }
    }
}

/// One parameter definition: its name, default, range, smoothing and the
/// controller that drives it, if any.
pub struct ParamDef {
    pub name: String,
    pub kind: Option<String>,
    pub default: Sample,
    pub min: Sample,
    pub max: Sample,
    pub smoothing: Sample,
    pub midi: Option<MidiBinding>,
}

/// A named preset in its canonical form: the values it sets, the MIDI
/// settings it overrides and the controller numbers it reassigns.
pub struct ProfilePreset {
    pub uniforms: NameMap<Sample>,
    pub midi: Option<MidiGlobalCfg>,
    pub cc_overrides: NameMap<u8>,
}

impl ProfilePreset {
    /// Both tables of the preset are well formed.
    pub open spec fn wf(&self) -> bool {
        self.uniforms.wf() && self.cc_overrides.wf()
    }

    /// A preset in the flat form: a table of values, nothing else.
    pub fn legacy(uniforms: NameMap<Sample>) -> (r: Self)
        requires
            uniforms.wf(),
        ensures
            r.wf(),
            r.uniforms == uniforms,
            r.midi is None,
            r.cc_overrides@ == Map::<Seq<char>, u8>::empty(),
    {
        ProfilePreset { uniforms, midi: None, cc_overrides: NameMap::new() }
    }

    /// The values the preset sets.
    pub fn uniforms(&self) -> (r: &NameMap<Sample>)
        ensures
            *r == self.uniforms,
    {
        &self.uniforms
    }

    /// The MIDI settings the preset overrides, if it overrides any.
    pub fn midi_override(&self) -> (r: Option<MidiGlobalCfg>)
        ensures
            r == self.midi,
    {
        match &self.midi {
            Some(m) => Some(m.clone()),
            None => None,
        }
    }

    /// The controller numbers the preset reassigns, by parameter name.
    pub fn cc_overrides(&self) -> (r: &NameMap<u8>)
        ensures
            *r == self.cc_overrides,
    {
        &self.cc_overrides
    }
}

/// Whether every value of a table of presets is well formed.
pub open spec fn presets_wf(m: NameMap<ProfilePreset>) -> bool {
    m.wf() && forall|k: Seq<char>| m@.contains_key(k) ==> (#[trigger] m@[k]).wf()
}

/// Hotkey names for stepping through and selecting profiles.
pub struct ProfileHotkeysCfg {
    pub next: Vec<String>,
    pub prev: Vec<String>,
    pub set: NameMap<Vec<String>>,
}

/// The parameter configuration: definitions, presets and which preset is
/// active, globally and per shader.
pub struct ParamsFile {
    pub version: u32,
    pub midi: MidiGlobalCfg,
    pub osc: OscCfg,
    pub params: Vec<ParamDef>,
    pub profiles: NameMap<ProfilePreset>,
    pub shader_profiles: NameMap<NameMap<ProfilePreset>>,
    pub active_shader_profiles: NameMap<String>,
    pub active_profile: Option<String>,
    pub profile_hotkeys: ProfileHotkeysCfg,
}

impl ParamsFile {
    /// Every table of the configuration is well formed.
    pub open spec fn wf(&self) -> bool {
        &&& presets_wf(self.profiles)
        &&& self.shader_profiles.wf()
        &&& forall|s: Seq<char>|
            self.shader_profiles@.contains_key(s) ==> presets_wf(#[trigger] self.shader_profiles@[s])
        &&& self.active_shader_profiles.wf()
        &&& self.profile_hotkeys.set.wf()
    }
}

} // verus!
