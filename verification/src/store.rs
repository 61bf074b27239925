//! The parameter store: current values, targets, smoothing and ranges by
//! parameter name, and the controller bindings that write the targets.
//!
//! The store decides which parameter an input reaches and what is kept,
//! replaced or rebuilt. The arithmetic on samples (scaling an input into a
//! range, the smoothing step) is the caller's: each operation that needs it
//! takes it as a function and says in its contract which call produced the
//! sample it stored.

use vstd::prelude::*;
use crate::bindings::{MidiTable, ParamMapping, build_mappings, spec_build_mappings, spec_resolve};
use crate::midi::{MidiGlobalCfg, merge_midi_cfg, spec_merge_midi_cfg};
use crate::names::NameMap;
use crate::osc::{OscCfg, OscMappingResolved, OscRuntime, direct_route, spec_direct_route};
use crate::params::{ParamDef, ParamsFile, ProfilePreset, Sample};
use crate::text::{spec_ascending, spec_sorted, views};

verus! {

/// The input that a shaping function turns into a target.
#[derive(Clone, Copy, PartialEq, Eq, Structural, Debug)]
pub enum Drive {
    /// A controller value, `0..=127`, to be spread linearly over the range.
    Controller(u8),
    /// An input to be clamped to the unit interval and scaled into the range.
    Normalized(Sample),
    /// An input to be clamped to the range.
    Raw(Sample),
}

/// The state of a store as mathematical maps.
pub struct StoreView {
    pub values: Map<Seq<char>, Sample>,
    pub targets: Map<Seq<char>, Sample>,
    pub smoothing: Map<Seq<char>, Sample>,
    pub ranges: Map<Seq<char>, (Sample, Sample)>,
    pub bindings: Map<(u8, u8), ParamMapping>,
}

/// The runtime parameter store.
pub struct ParamStore {
    values: NameMap<Sample>,
    targets: NameMap<Sample>,
    smooth: NameMap<Sample>,
    ranges: NameMap<(Sample, Sample)>,
    mappings: MidiTable,
}

/// The definition in force for each name: the last one in the list.
pub open spec fn spec_definitions(params: Seq<ParamDef>) -> Map<Seq<char>, ParamDef>
    decreases params.len(),
{
    if params.len() == 0 {
        Map::empty()
    } else {
        spec_definitions(params.drop_last()).insert(params.last().name@, params.last())
    }
}

/// The store that a configuration starts with: every parameter at its
/// default, bound as the definitions and the global MIDI settings say.
pub open spec fn spec_initial(pf: ParamsFile) -> StoreView {
    let defs = spec_definitions(pf.params@);
    StoreView {
        values: Map::new(|n: Seq<char>| defs.contains_key(n), |n: Seq<char>| defs[n].default),
        targets: Map::new(|n: Seq<char>| defs.contains_key(n), |n: Seq<char>| defs[n].default),
        smoothing: Map::new(|n: Seq<char>| defs.contains_key(n), |n: Seq<char>| defs[n].smoothing),
        ranges: Map::new(
            |n: Seq<char>| defs.contains_key(n),
            |n: Seq<char>| (defs[n].min, defs[n].max),
        ),
        bindings: spec_build_mappings(pf.params@, pf.midi.channel, Map::empty()),
    }
}

/// The state after a definitions reload, before any preset is laid over
/// it: a parameter that had a target keeps value, target and smoothing; one
/// that had none starts from its new default; ranges are always the new
/// ones; parameters that are no longer defined are gone. The bindings are
/// not decided here.
pub open spec fn spec_carried(old: StoreView, pf: ParamsFile) -> StoreView {
    let defs = spec_definitions(pf.params@);
    StoreView {
        values: Map::new(
            |n: Seq<char>| defs.contains_key(n),
            |n: Seq<char>|
                if old.targets.contains_key(n) {
                    if old.values.contains_key(n) {
                        old.values[n]
                    } else {
                        old.targets[n]
                    }
                } else {
                    defs[n].default
                },
        ),
        targets: Map::new(
            |n: Seq<char>| defs.contains_key(n),
            |n: Seq<char>|
                if old.targets.contains_key(n) {
                    old.targets[n]
                } else {
                    defs[n].default
                },
        ),
        smoothing: Map::new(
            |n: Seq<char>| defs.contains_key(n),
            |n: Seq<char>|
                if old.targets.contains_key(n) && old.smoothing.contains_key(n) {
                    old.smoothing[n]
                } else {
                    defs[n].smoothing
                },
        ),
        ranges: Map::new(
            |n: Seq<char>| defs.contains_key(n),
            |n: Seq<char>| (defs[n].min, defs[n].max),
        ),
        bindings: old.bindings,
    }
}

/// The state with a preset laid over it: the preset's values become both
/// value and target at once, and the bindings are rebuilt from the
/// definitions under the preset's MIDI settings and controller numbers.
pub open spec fn spec_with_preset(s: StoreView, pf: ParamsFile, preset: ProfilePreset) -> StoreView {
    StoreView {
        values: s.values.union_prefer_right(preset.uniforms@),
        targets: s.targets.union_prefer_right(preset.uniforms@),
        smoothing: s.smoothing,
        ranges: s.ranges,
        bindings: spec_build_mappings(
            pf.params@,
            spec_merge_midi_cfg(pf.midi, preset.midi).channel,
            preset.cc_overrides@,
        ),
    }
}

/// The global preset of the given name, if a name is given and it exists.
pub open spec fn spec_global_preset(pf: ParamsFile, active: Option<Seq<char>>) -> Option<ProfilePreset> {
    match active {
        Some(a) => if pf.profiles@.contains_key(a) {
            Some(pf.profiles@[a])
        } else {
            None
        },
        None => None,
    }
}

/// The preset that a profile name selects for a shader: the one in the
/// shader's own scope if the shader has a scope and the name is in it, else
/// the global one of that name.
pub open spec fn spec_find_preset(
    pf: ParamsFile,
    shader: Option<Seq<char>>,
    profile: Seq<char>,
) -> Option<ProfilePreset> {
    let scoped = match shader {
        Some(s) => pf.shader_profiles@.contains_key(s) && pf.shader_profiles@[s]@.contains_key(profile),
        None => false,
    };
    if scoped {
        Some(pf.shader_profiles@[shader->0]@[profile])
    } else {
        spec_global_preset(pf, Some(profile))
    }
}

/// The MIDI settings in force once a preset, if any, is applied.
pub open spec fn spec_effective_midi(pf: ParamsFile, preset: Option<ProfilePreset>) -> MidiGlobalCfg {
    match preset {
        Some(p) => spec_merge_midi_cfg(pf.midi, p.midi),
        None => pf.midi,
    }
}

/// The state after a definitions reload with `active` as the active profile.
pub open spec fn spec_reload(old: StoreView, pf: ParamsFile, active: Option<Seq<char>>) -> StoreView {
    let carried = spec_carried(old, pf);
    match spec_global_preset(pf, active) {
        Some(p) => spec_with_preset(carried, pf, p),
        None => StoreView {
            bindings: spec_build_mappings(pf.params@, pf.midi.channel, Map::empty()),
            ..carried
        },
    }
}

/// The state after a profile is activated: unchanged when the name selects
/// no preset.
pub open spec fn spec_apply_profile(
    old: StoreView,
    pf: ParamsFile,
    shader: Option<Seq<char>>,
    profile: Seq<char>,
) -> StoreView {
    match spec_find_preset(pf, shader, profile) {
        Some(p) => spec_with_preset(old, pf, p),
        None => old,
    }
}

/// The state after `target` is written for `name`, with the smoothing of
/// that parameter set to `smoothing` if one is given.
pub open spec fn spec_written(
    old: StoreView,
    name: Seq<char>,
    target: Sample,
    smoothing: Option<Sample>,
) -> StoreView {
    StoreView {
        targets: old.targets.insert(name, target),
        smoothing: match smoothing {
            Some(s) => old.smoothing.insert(name, s),
            None => old.smoothing,
        },
        ..old
    }
}

/// `new` is `old` after a controller value reached the binding `m`: the
/// target of the bound parameter is what `shape` made of the value over the
/// binding's range, and the binding's smoothing is in force.
pub open spec fn spec_controller_write<F: Fn(Sample, Sample, Drive) -> Sample>(
    shape: F,
    old: StoreView,
    new: StoreView,
    m: ParamMapping,
    value: u8,
) -> bool {
    &&& new.targets.contains_key(m.name@)
    &&& call_ensures(shape, (m.min, m.max, Drive::Controller(value)), new.targets[m.name@])
    &&& new == spec_written(old, m.name@, new.targets[m.name@], Some(m.smoothing))
}

/// The range a direct write uses: the parameter's own, or, where it has
/// none, the unit interval for a normalized input and the input itself for
/// a raw one.
pub open spec fn spec_direct_range(old: StoreView, name: Seq<char>, normalized: bool, input: Sample) -> (
    Sample,
    Sample,
) {
    if old.ranges.contains_key(name) {
        old.ranges[name]
    } else if normalized {
        (Sample::spec_zero(), Sample::spec_one())
    } else {
        (input, input)
    }
}

/// The input of a write as the shaping function sees it.
pub open spec fn spec_drive(normalized: bool, input: Sample) -> Drive {
    if normalized {
        Drive::Normalized(input)
    } else {
        Drive::Raw(input)
    }
}

/// `new` is `old` after `input` was written to the parameter `name` by
/// name: the target is what `shape` made of the input over the parameter's
/// range; the smoothing in force stays, and is zero where there was none.
pub open spec fn spec_direct_write<F: Fn(Sample, Sample, Drive) -> Sample>(
    shape: F,
    old: StoreView,
    new: StoreView,
    name: Seq<char>,
    normalized: bool,
    input: Sample,
) -> bool {
    let range = spec_direct_range(old, name, normalized, input);
    let kept = if old.smoothing.contains_key(name) {
        old.smoothing[name]
    } else {
        Sample::spec_zero()
    };
    &&& new.targets.contains_key(name)
    &&& call_ensures(shape, (range.0, range.1, spec_drive(normalized, input)), new.targets[name])
    &&& new == spec_written(old, name, new.targets[name], Some(kept))
}

/// The range a configured address uses: its own when it gives both ends,
/// else the parameter's, else the unit interval.
pub open spec fn spec_mapped_range(old: StoreView, m: OscMappingResolved) -> (Sample, Sample) {
    if m.min is Some && m.max is Some {
        (m.min->0, m.max->0)
    } else if old.ranges.contains_key(m.param@) {
        old.ranges[m.param@]
    } else {
        (Sample::spec_zero(), Sample::spec_one())
    }
}

/// `new` is `old` after `input` arrived at the configured address `m`: the
/// target of its parameter is what `shape` made of the input over the
/// address's range, and the smoothing changes only if the address sets one.
pub open spec fn spec_mapped_write<F: Fn(Sample, Sample, Drive) -> Sample>(
    shape: F,
    old: StoreView,
    new: StoreView,
    m: OscMappingResolved,
    input: Sample,
) -> bool {
    let range = spec_mapped_range(old, m);
    &&& new.targets.contains_key(m.param@)
    &&& call_ensures(shape, (range.0, range.1, spec_drive(m.normalized, input)), new.targets[m.param@])
    &&& new == spec_written(old, m.param@, new.targets[m.param@], m.smooth)
}

/// What a message to a built-in address does, if it does anything: it needs
/// an address of one of the two shapes, a numeric argument and a parameter
/// of that name with a value. The normalized shape is read as normalized
/// only where the configuration says so.
pub open spec fn spec_direct_hit(old: StoreView, osc: OscCfg, addr: Seq<char>, arg: Option<Sample>) -> Option<
    (Seq<char>, bool),
> {
    match spec_direct_route(osc.prefix@, addr) {
        Some((shape, name)) => if arg is Some && old.values.contains_key(name) {
            Some((name, shape && osc.normalized))
        } else {
            None
        },
        None => None,
    }
}

/// Whether `r` and `new` are what a message to `addr` with the argument
/// `arg` leads to from `old`: a configured address applies when there is a
/// numeric argument and its parameter has a value; any other address is
/// read as one of the built-in shapes; a message that does not apply
/// changes nothing.
pub open spec fn spec_osc_applied<F: Fn(Sample, Sample, Drive) -> Sample>(
    shape: F,
    old: StoreView,
    new: StoreView,
    rt: OscRuntime,
    addr: Seq<char>,
    arg: Option<Sample>,
    r: Option<(String, Sample, bool)>,
) -> bool {
    if rt.table().contains_key(addr) {
        let m = rt.table()[addr];
        match r {
            Some((name, target, normalized)) => {
                &&& arg is Some
                &&& old.values.contains_key(m.param@)
                &&& name@ == m.param@
                &&& normalized == m.normalized
                &&& spec_mapped_write(shape, old, new, m, arg->0)
                &&& target == new.targets[name@]
            },
            None => {
                &&& arg is None || !old.values.contains_key(m.param@)
                &&& new == old
            },
        }
    } else {
        match r {
            Some((name, target, normalized)) => {
                &&& spec_direct_hit(old, rt.spec_cfg(), addr, arg) == Some((name@, normalized))
                &&& spec_direct_write(shape, old, new, name@, normalized, arg->0)
                &&& target == new.targets[name@]
            },
            None => spec_direct_hit(old, rt.spec_cfg(), addr, arg) is None && new == old,
        }
    }
}

/// The target that a parameter without a target is taken to have: its value.
pub open spec fn spec_target_or_value(s: StoreView, name: Seq<char>) -> Sample {
    if s.targets.contains_key(name) {
        s.targets[name]
    } else {
        s.values[name]
    }
}

/// The smoothing that a parameter without one is taken to have: zero.
pub open spec fn spec_smoothing_or_zero(s: StoreView, name: Seq<char>) -> Sample {
    if s.smoothing.contains_key(name) {
        s.smoothing[name]
    } else {
        Sample::spec_zero()
    }
}

/// `new` is `old` one frame later: every parameter's value is what `step`
/// made of its value, target and smoothing; nothing else changed.
pub open spec fn spec_ticked<G: Fn(Sample, Sample, Sample) -> Sample>(
    step: G,
    old: StoreView,
    new: StoreView,
) -> bool {
    &&& new.values.dom() == old.values.dom()
    &&& forall|n: Seq<char>| #[trigger]
        old.values.contains_key(n) ==> call_ensures(
            step,
            (old.values[n], spec_target_or_value(old, n), spec_smoothing_or_zero(old, n)),
            new.values[n],
        )
    &&& new.targets == old.targets
    &&& new.smoothing == old.smoothing
    &&& new.ranges == old.ranges
    &&& new.bindings == old.bindings
}

impl View for ParamStore {
    type V = StoreView;

    closed spec fn view(&self) -> StoreView {
        StoreView {
            values: self.values@,
            targets: self.targets@,
            smoothing: self.smooth@,
            ranges: self.ranges@,
            bindings: self.mappings@,
        }
    }
}

impl ParamStore {
    /// The tables of the store are well formed.
    pub closed spec fn wf(&self) -> bool {
        &&& self.values.wf()
        &&& self.targets.wf()
        &&& self.smooth.wf()
        &&& self.ranges.wf()
        &&& self.mappings.wf()
    }

    /// The parameter names in the order in which the renderer reads them.
    pub closed spec fn names(&self) -> Seq<Seq<char>> {
        self.values.keys()
    }

    /// The names are exactly the parameters that have a value, each once.
    pub proof fn lemma_names(&self)
        requires
            self.wf(),
        ensures
            self.names().no_duplicates(),
            forall|n: Seq<char>| self@.values.contains_key(n) <==> self.names().contains(n),
    {
        self.values.lemma_keys();
    }

    /// Creates the store for a configuration.
    pub fn new(pf: &ParamsFile) -> (r: Self)
        ensures
            r.wf(),
            r@ == spec_initial(*pf),
    {
        let mut values: NameMap<Sample> = NameMap::new();
        let mut targets: NameMap<Sample> = NameMap::new();
        let mut smooth: NameMap<Sample> = NameMap::new();
        let mut ranges: NameMap<(Sample, Sample)> = NameMap::new();
        let mut i: usize = 0;
        while i < pf.params.len()
            invariant
                i <= pf.params.len(),
                values.wf(),
                targets.wf(),
                smooth.wf(),
                ranges.wf(),
                values@.dom() == spec_definitions(pf.params@.take(i as int)).dom(),
                targets@.dom() == values@.dom(),
                smooth@.dom() == values@.dom(),
                ranges@.dom() == values@.dom(),
                forall|n: Seq<char>| #[trigger]
                    values@.contains_key(n) ==> {
                        let d = spec_definitions(pf.params@.take(i as int))[n];
                        &&& values@[n] == d.default
                        &&& targets@[n] == d.default
                        &&& smooth@[n] == d.smoothing
                        &&& ranges@[n] == (d.min, d.max)
                    },
            decreases pf.params.len() - i,
        {
            let p = &pf.params[i];
            proof {
                assert(pf.params@.take(i + 1).drop_last() == pf.params@.take(i as int));
                assert(pf.params@.take(i + 1).last() == pf.params@[i as int]);
            }
            values.insert(p.name.clone(), p.default);
            targets.insert(p.name.clone(), p.default);
            smooth.insert(p.name.clone(), p.smoothing);
            ranges.insert(p.name.clone(), (p.min, p.max));
            i += 1;
        }
        assert(pf.params@.take(pf.params@.len() as int) == pf.params@);
        let empty: NameMap<u8> = NameMap::new();
        let mappings = build_mappings(&pf.params, &pf.midi, &empty);
        let r = ParamStore { values, targets, smooth, ranges, mappings };
        proof {
            let want = spec_initial(*pf);
            assert(r@.values =~= want.values);
            assert(r@.targets =~= want.targets);
            assert(r@.smoothing =~= want.smoothing);
            assert(r@.ranges =~= want.ranges);
        }
        r
    }

    /// Number of parameters that have a value.
    pub fn len(&self) -> (n: usize)
        ensures
            n == self.names().len(),
    {
        self.values.len()
    }

    /// The name of the `i`-th parameter.
    pub fn name_at(&self, i: usize) -> (r: &String)
        requires
            i < self.names().len(),
        ensures
            r@ == self.names()[i as int],
    {
        self.values.key_at(i)
    }

    /// The current value of a parameter.
    pub fn value(&self, name: &str) -> (r: Option<Sample>)
        requires
            self.wf(),
        ensures
            r == if self@.values.contains_key(name@) {
                Some(self@.values[name@])
            } else {
                None
            },
    {
        match self.values.get(name) {
            Some(v) => Some(*v),
            None => None,
        }
    }

    /// The target a parameter is moving toward.
    pub fn target(&self, name: &str) -> (r: Option<Sample>)
        requires
            self.wf(),
        ensures
            r == if self@.targets.contains_key(name@) {
                Some(self@.targets[name@])
            } else {
                None
            },
    {
        match self.targets.get(name) {
            Some(v) => Some(*v),
            None => None,
        }
    }

    /// The smoothing coefficient in force for a parameter.
    pub fn smoothing(&self, name: &str) -> (r: Option<Sample>)
        requires
            self.wf(),
        ensures
            r == if self@.smoothing.contains_key(name@) {
                Some(self@.smoothing[name@])
            } else {
                None
            },
    {
        match self.smooth.get(name) {
            Some(v) => Some(*v),
            None => None,
        }
    }

    /// The range of a parameter, as (min, max).
    pub fn range(&self, name: &str) -> (r: Option<(Sample, Sample)>)
        requires
            self.wf(),
        ensures
            r == if self@.ranges.contains_key(name@) {
                Some(self@.ranges[name@])
            } else {
                None
            },
    {
        match self.ranges.get(name) {
            Some(v) => Some(*v),
            None => None,
        }
    }

    /// The names of the parameters that have a value, ascending.
    pub fn sorted_names(&self) -> (r: Vec<String>)
        requires
            self.wf(),
        ensures
            views(r@) == spec_ascending(self@.values.dom()),
            spec_sorted(views(r@)),
            views(r@).to_set() == self@.values.dom(),
    {
        self.values.sorted_names()
    }

    /// The controller bindings.
    pub fn mappings(&self) -> (r: &MidiTable)
        ensures
            r@ == self@.bindings,
            self.wf() ==> r.wf(),
    {
        &self.mappings
    }

    /// Lays a preset over the store and rebuilds the bindings.
    fn lay_preset(&mut self, pf: &ParamsFile, preset: &ProfilePreset) -> (r: MidiGlobalCfg)
        requires
            old(self).wf(),
            preset.wf(),
        ensures
            final(self).wf(),
            final(self)@ == spec_with_preset(old(self)@, *pf, *preset),
            r == spec_merge_midi_cfg(pf.midi, preset.midi),
    {
        self.values.extend_from(preset.uniforms());
        self.targets.extend_from(preset.uniforms());
        let effective = merge_midi_cfg(&pf.midi, preset.midi_override());
        self.mappings = build_mappings(&pf.params, &effective, preset.cc_overrides());
        effective
    }

    /// Reconciles the store with reloaded definitions and applies the active
    /// profile again. Returns the MIDI settings then in force.
    ///
    /// A parameter that had a target keeps its value, target and smoothing;
    /// one that had none starts from its new default. The active profile is
    /// looked up among the global presets; when it names none, the bindings
    /// are rebuilt from the definitions alone.
    pub fn apply_params_file(&mut self, new_pf: &ParamsFile, active_profile: Option<&str>) -> (r:
        MidiGlobalCfg)
        requires
            old(self).wf(),
            new_pf.wf(),
        ensures
            final(self).wf(),
            final(self)@ == spec_reload(
                old(self)@,
                *new_pf,
                match active_profile {
                    Some(a) => Some(a@),
                    None => None,
                },
            ),
            r == spec_effective_midi(
                *new_pf,
                spec_global_preset(
                    *new_pf,
                    match active_profile {
                        Some(a) => Some(a@),
                        None => None,
                    },
                ),
            ),
    {
        let ghost before = self@;
        let mut values: NameMap<Sample> = NameMap::new();
        let mut targets: NameMap<Sample> = NameMap::new();
        let mut smooth: NameMap<Sample> = NameMap::new();
        let mut ranges: NameMap<(Sample, Sample)> = NameMap::new();
        let mut i: usize = 0;
        while i < new_pf.params.len()
            invariant
                i <= new_pf.params.len(),
                self.wf(),
                self@ == before,
                values.wf(),
                targets.wf(),
                smooth.wf(),
                ranges.wf(),
                values@.dom() == spec_definitions(new_pf.params@.take(i as int)).dom(),
                targets@.dom() == values@.dom(),
                smooth@.dom() == values@.dom(),
                ranges@.dom() == values@.dom(),
                forall|n: Seq<char>| #[trigger]
                    values@.contains_key(n) ==> {
                        let d = spec_definitions(new_pf.params@.take(i as int))[n];
                        &&& values@[n] == if before.targets.contains_key(n) {
                            if before.values.contains_key(n) {
                                before.values[n]
                            } else {
                                before.targets[n]
                            }
                        } else {
                            d.default
                        }
                        &&& targets@[n] == if before.targets.contains_key(n) {
                            before.targets[n]
                        } else {
                            d.default
                        }
                        &&& smooth@[n] == if before.targets.contains_key(n)
                            && before.smoothing.contains_key(n) {
                            before.smoothing[n]
                        } else {
                            d.smoothing
                        }
                        &&& ranges@[n] == (d.min, d.max)
                    },
            decreases new_pf.params.len() - i,
        {
            let p = &new_pf.params[i];
            proof {
                assert(new_pf.params@.take(i + 1).drop_last() == new_pf.params@.take(i as int));
                assert(new_pf.params@.take(i + 1).last() == new_pf.params@[i as int]);
            }
            let name = p.name.as_str();
            match self.targets.get(name) {
                Some(t) => {
                    let t = *t;
                    let cur = match self.values.get(name) {
                        Some(v) => *v,
                        None => t,
                    };
                    let s = match self.smooth.get(name) {
                        Some(v) => *v,
                        None => p.smoothing,
                    };
                    values.insert(p.name.clone(), cur);
                    targets.insert(p.name.clone(), t);
                    smooth.insert(p.name.clone(), s);
                },
                None => {
                    values.insert(p.name.clone(), p.default);
                    targets.insert(p.name.clone(), p.default);
                    smooth.insert(p.name.clone(), p.smoothing);
                },
            }
            ranges.insert(p.name.clone(), (p.min, p.max));
            i += 1;
        }
        assert(new_pf.params@.take(new_pf.params@.len() as int) == new_pf.params@);
        self.values = values;
        self.targets = targets;
        self.smooth = smooth;
        self.ranges = ranges;
        proof {
            let want = spec_carried(before, *new_pf);
            assert(self@.values =~= want.values);
            assert(self@.targets =~= want.targets);
            assert(self@.smoothing =~= want.smoothing);
            assert(self@.ranges =~= want.ranges);
        }
        let preset = match active_profile {
            Some(a) => new_pf.profiles.get(a),
            None => None,
        };
        match preset {
            Some(p) => self.lay_preset(new_pf, p),
            None => {
                let empty: NameMap<u8> = NameMap::new();
                self.mappings = build_mappings(&new_pf.params, &new_pf.midi, &empty);
                new_pf.midi.clone()
            },
        }
    }

    /// Activates the profile `profile_name` for the shader `shader`. Returns
    /// the MIDI settings then in force.
    ///
    /// The preset is taken from the shader's own scope when the shader has
    /// one that holds the name, else from the global presets. Its values
    /// become value and target at once, and the bindings are rebuilt. When
    /// the name selects no preset the store, bindings included, is left as
    /// it is and the base MIDI settings are returned.
    pub fn apply_profile(&mut self, pf: &ParamsFile, shader: Option<&str>, profile_name: &str) -> (r:
        MidiGlobalCfg)
        requires
            old(self).wf(),
            pf.wf(),
        ensures
            final(self).wf(),
            final(self)@ == spec_apply_profile(
                old(self)@,
                *pf,
                match shader {
                    Some(s) => Some(s@),
                    None => None,
                },
                profile_name@,
            ),
            r == spec_effective_midi(
                *pf,
                spec_find_preset(
                    *pf,
                    match shader {
                        Some(s) => Some(s@),
                        None => None,
                    },
                    profile_name@,
                ),
            ),
    {
        let scoped: Option<&ProfilePreset> = match shader {
            Some(s) => match pf.shader_profiles.get(s) {
                Some(per_shader) => per_shader.get(profile_name),
                None => None,
            },
            None => None,
        };
        let preset = match scoped {
            Some(p) => Some(p),
            None => pf.profiles.get(profile_name),
        };
        match preset {
            Some(p) => self.lay_preset(pf, p),
            None => pf.midi.clone(),
        }
    }

    /// Takes a controller value. Returns whether a binding took it.
    ///
    /// The pair is resolved as [`spec_resolve`] says. On success the bound
    /// parameter's target is what `shape` makes of the value over the
    /// binding's range, and the binding's smoothing takes effect; otherwise
    /// the store is unchanged.
    pub fn set_cc<F: Fn(Sample, Sample, Drive) -> Sample>(
        &mut self,
        ch: u8,
        cc: u8,
        val_0_127: u8,
        shape: F,
    ) -> (applied: bool)
        requires
            old(self).wf(),
            forall|mn: Sample, mx: Sample, d: Drive| call_requires(shape, (mn, mx, d)),
        ensures
            final(self).wf(),
            applied == (spec_resolve(old(self)@.bindings, ch, cc) is Some),
            !applied ==> final(self)@ == old(self)@,
            applied ==> spec_controller_write(
                shape,
                old(self)@,
                final(self)@,
                old(self)@.bindings[spec_resolve(old(self)@.bindings, ch, cc)->0],
                val_0_127,
            ),
    {
        let hit = match self.mappings.resolve(ch, cc) {
            Some(m) => m.clone(),
            None => {
                return false;
            },
        };
        let t = shape(hit.min, hit.max, Drive::Controller(val_0_127));
        self.targets.insert(hit.name.clone(), t);
        self.smooth.insert(hit.name, hit.smoothing);
        true
    }

    /// Writes `input` to the parameter `name`. Returns whether the parameter
    /// exists; if it does not, the store is unchanged.
    fn write_direct<F: Fn(Sample, Sample, Drive) -> Sample>(
        &mut self,
        name: &str,
        normalized: bool,
        input: Sample,
        shape: F,
    ) -> (applied: bool)
        requires
            old(self).wf(),
            forall|mn: Sample, mx: Sample, d: Drive| call_requires(shape, (mn, mx, d)),
        ensures
            final(self).wf(),
            applied == old(self)@.values.contains_key(name@),
            !applied ==> final(self)@ == old(self)@,
            applied ==> spec_direct_write(shape, old(self)@, final(self)@, name@, normalized, input),
    {
        if !self.values.contains_key(name) {
            return false;
        }
        let (mn, mx) = match self.ranges.get(name) {
            Some(r) => *r,
            None => if normalized {
                (Sample::zero(), Sample::one())
            } else {
                (input, input)
            },
        };
        let drive = if normalized {
            Drive::Normalized(input)
        } else {
            Drive::Raw(input)
        };
        let t = shape(mn, mx, drive);
        let kept = match self.smooth.get(name) {
            Some(s) => *s,
            None => Sample::zero(),
        };
        self.targets.insert(String::from_str(name), t);
        self.smooth.insert(String::from_str(name), kept);
        true
    }

    /// Sets the target of `name` to `val` clamped to the parameter's range.
    /// Returns whether the parameter exists.
    pub fn set_target_raw<F: Fn(Sample, Sample, Drive) -> Sample>(
        &mut self,
        name: &str,
        val: Sample,
        shape: F,
    ) -> (applied: bool)
        requires
            old(self).wf(),
            forall|mn: Sample, mx: Sample, d: Drive| call_requires(shape, (mn, mx, d)),
        ensures
            final(self).wf(),
            applied == old(self)@.values.contains_key(name@),
            !applied ==> final(self)@ == old(self)@,
            applied ==> spec_direct_write(shape, old(self)@, final(self)@, name@, false, val),
    {
        self.write_direct(name, false, val, shape)
    }

    /// Sets the target of `name` to `x01`, clamped to the unit interval and
    /// scaled into the parameter's range. Returns whether the parameter
    /// exists.
    pub fn set_target_normalized<F: Fn(Sample, Sample, Drive) -> Sample>(
        &mut self,
        name: &str,
        x01: Sample,
        shape: F,
    ) -> (applied: bool)
        requires
            old(self).wf(),
            forall|mn: Sample, mx: Sample, d: Drive| call_requires(shape, (mn, mx, d)),
        ensures
            final(self).wf(),
            applied == old(self)@.values.contains_key(name@),
            !applied ==> final(self)@ == old(self)@,
            applied ==> spec_direct_write(shape, old(self)@, final(self)@, name@, true, x01),
    {
        self.write_direct(name, true, x01, shape)
    }

    /// Takes a message to one of the two built-in address shapes.
    ///
    /// `arg` is the first argument of the message as a sample, `None` when
    /// the message has no argument or its first argument is not a number.
    /// Returns the parameter written, its new target and whether the input
    /// was read as normalized; `None`, with the store unchanged, when the
    /// message was not applied.
    pub fn apply_osc<F: Fn(Sample, Sample, Drive) -> Sample>(
        &mut self,
        osc: &OscCfg,
        addr: &str,
        arg: Option<Sample>,
        shape: F,
    ) -> (r: Option<(String, Sample, bool)>)
        requires
            old(self).wf(),
            forall|mn: Sample, mx: Sample, d: Drive| call_requires(shape, (mn, mx, d)),
        ensures
            final(self).wf(),
            match r {
                Some((name, target, normalized)) => {
                    &&& spec_direct_hit(old(self)@, *osc, addr@, arg) == Some((name@, normalized))
                    &&& spec_direct_write(shape, old(self)@, final(self)@, name@, normalized, arg->0)
                    &&& target == final(self)@.targets[name@]
                },
                None => spec_direct_hit(old(self)@, *osc, addr@, arg) is None && final(self)@ == old(self)@,
            },
    {
        let route = match direct_route(osc.prefix.as_str(), addr) {
            Some(route) => route,
            None => {
                return None;
            },
        };
        let input = match arg {
            Some(v) => v,
            None => {
                return None;
            },
        };
        let normalized = route.normalized_shape && osc.normalized;
        if !self.write_direct(route.name.as_str(), normalized, input, shape) {
            return None;
        }
        let target = match self.targets.get(route.name.as_str()) {
            Some(t) => *t,
            None => input,
        };
        Some((route.name, target, normalized))
    }

    /// Takes an OSC message: first by the configured address table, and if
    /// the address is not in it, as one of the built-in shapes.
    ///
    /// `arg` is the first argument of the message as a sample, `None` when
    /// the message has no argument or its first argument is not a number. A
    /// configured address applies when there is such an argument and its
    /// parameter has a value. Returns the parameter written, its new target
    /// and whether the input was read as normalized; `None`, with the store
    /// unchanged, when the message was not applied.
    pub fn apply_osc_runtime<F: Fn(Sample, Sample, Drive) -> Sample>(
        &mut self,
        rt: &OscRuntime,
        addr: &str,
        arg: Option<Sample>,
        shape: F,
    ) -> (r: Option<(String, Sample, bool)>)
        requires
            old(self).wf(),
            rt.wf(),
            forall|mn: Sample, mx: Sample, d: Drive| call_requires(shape, (mn, mx, d)),
        ensures
            final(self).wf(),
            spec_osc_applied(shape, old(self)@, final(self)@, *rt, addr@, arg, r),
    {
        match rt.lookup(addr) {
            Some(m) => {
                let input = match arg {
                    Some(v) => v,
                    None => {
                        return None;
                    },
                };
                let name = m.param.as_str();
                if !self.values.contains_key(name) {
                    return None;
                }
                let (mn, mx) = match (m.min, m.max) {
                    (Some(a), Some(b)) => (a, b),
                    _ => match self.ranges.get(name) {
                        Some(r) => *r,
                        None => (Sample::zero(), Sample::one()),
                    },
                };
                let drive = if m.normalized {
                    Drive::Normalized(input)
                } else {
                    Drive::Raw(input)
                };
                let target = shape(mn, mx, drive);
                self.targets.insert(m.param.clone(), target);
                if let Some(s) = m.smooth {
                    self.smooth.insert(m.param.clone(), s);
                }
                Some((m.param.clone(), target, m.normalized))
            },
            None => self.apply_osc(rt.cfg(), addr, arg, shape),
        }
    }

    /// Advances every parameter by one frame: its value becomes what `step`
    /// makes of its value, its target and its smoothing. A parameter without
    /// a target is taken to be at its target, one without a smoothing to
    /// have none.
    pub fn tick<G: Fn(Sample, Sample, Sample) -> Sample>(&mut self, step: G)
        requires
            old(self).wf(),
            forall|v: Sample, t: Sample, s: Sample| call_requires(step, (v, t, s)),
        ensures
            final(self).wf(),
            final(self).names() == old(self).names(),
            spec_ticked(step, old(self)@, final(self)@),
    {
        let ghost before = *self;
        proof {
            before.values.lemma_keys();
        }
        let n = self.values.len();
        let mut i: usize = 0;
        while i < n
            invariant
                i <= n,
                n == before.values.keys().len(),
                before.wf(),
                self.wf(),
                forall|v: Sample, t: Sample, s: Sample| call_requires(step, (v, t, s)),
                self.values.keys() == before.values.keys(),
                self.values.values().len() == n,
                self.targets == before.targets,
                self.smooth == before.smooth,
                self.ranges == before.ranges,
                self.mappings == before.mappings,
                forall|j: int|
                    i <= j < n ==> self.values.values()[j] == #[trigger] before.values.values()[j],
                forall|j: int|
                    0 <= j < i ==> call_ensures(
                        step,
                        (
                            before.values.values()[j],
                            spec_target_or_value(before@, before.values.keys()[j]),
                            spec_smoothing_or_zero(before@, before.values.keys()[j]),
                        ),
                        #[trigger] self.values.values()[j],
                    ),
            decreases n - i,
        {
            proof {
                before.values.lemma_keys();
                self.values.lemma_keys();
            }
            let cur = *self.values.value_at(i);
            let name = self.values.key_at(i);
            let target = match self.targets.get(name.as_str()) {
                Some(t) => *t,
                None => cur,
            };
            let s = match self.smooth.get(name.as_str()) {
                Some(s) => *s,
                None => Sample::zero(),
            };
            let next = step(cur, target, s);
            self.values.set_value_at(i, next);
            i += 1;
        }
        proof {
            before.values.lemma_keys();
            self.values.lemma_keys();
            assert(self@.values.dom() =~= before@.values.dom());
            assert forall|name: Seq<char>| #[trigger]
                before@.values.contains_key(name) implies call_ensures(
                step,
                (
                    before@.values[name],
                    spec_target_or_value(before@, name),
                    spec_smoothing_or_zero(before@, name),
                ),
                self@.values[name],
            ) by {
                let j = before.values.keys().index_of(name);
                assert(before.values.keys()[j] == name);
                assert(self.values.keys()[j] == name);
            }
        }
    }
}

/// At equilibrium nothing moves: if the step function returns the value it
/// is given whenever value and target agree, then a frame leaves the value
/// of every parameter that is at its target as it was.
pub proof fn lemma_tick_keeps_equilibrium<G: Fn(Sample, Sample, Sample) -> Sample>(
    step: G,
    old: StoreView,
    new: StoreView,
    name: Seq<char>,
)
    requires
        spec_ticked(step, old, new),
        old.values.contains_key(name),
        spec_target_or_value(old, name) == old.values[name],
        forall|v: Sample, s: Sample, r: Sample| call_ensures(step, (v, v, s), r) ==> r == v,
    ensures
        new.values[name] == old.values[name],
{
}

/// A reload keeps a gesture in flight: a parameter that had a target and is
/// still defined has the same target afterwards, and the same value, unless
/// the active profile sets that parameter.
pub proof fn lemma_reload_keeps_target(
    old: StoreView,
    pf: ParamsFile,
    active: Option<Seq<char>>,
    name: Seq<char>,
)
    requires
        old.targets.contains_key(name),
        old.values.contains_key(name),
        spec_definitions(pf.params@).contains_key(name),
        spec_global_preset(pf, active) matches Some(p) ==> !p.uniforms@.contains_key(name),
    ensures
        spec_reload(old, pf, active).targets.contains_key(name),
        spec_reload(old, pf, active).targets[name] == old.targets[name],
        spec_reload(old, pf, active).values[name] == old.values[name],
{
}

/// A name is defined exactly when some definition in the list carries it.
pub proof fn lemma_definitions_dom(params: Seq<ParamDef>, name: Seq<char>)
    ensures
        spec_definitions(params).contains_key(name) <==> exists|i: int|
            0 <= i < params.len() && (#[trigger] params[i]).name@ == name,
    decreases params.len(),
{
    if params.len() > 0 {
        lemma_definitions_dom(params.drop_last(), name);
        if spec_definitions(params).contains_key(name) {
            if params.last().name@ == name {
                assert(params[params.len() - 1].name@ == name);
            } else {
                let i = choose|i: int|
                    0 <= i < params.drop_last().len() && (#[trigger] params.drop_last()[i]).name@
                        == name;
                assert(params[i].name@ == name);
            }
        }
        if exists|i: int| 0 <= i < params.len() && (#[trigger] params[i]).name@ == name {
            let i = choose|i: int| 0 <= i < params.len() && (#[trigger] params[i]).name@ == name;
            if i < params.len() - 1 {
                assert(params.drop_last()[i].name@ == name);
            }
        }
    }
}

/// A profile that the shader's own scope does not hold is taken from the
/// global presets.
pub proof fn lemma_global_fallback(pf: ParamsFile, shader: Option<Seq<char>>, profile: Seq<char>)
    requires
        shader matches Some(s) ==> !(pf.shader_profiles@.contains_key(s)
            && pf.shader_profiles@[s]@.contains_key(profile)),
        pf.profiles@.contains_key(profile),
    ensures
        spec_find_preset(pf, shader, profile) == Some(pf.profiles@[profile]),
{
}

/// Activating a profile sets each of its values as value and target at once.
pub proof fn lemma_profile_sets_values(
    old: StoreView,
    pf: ParamsFile,
    shader: Option<Seq<char>>,
    profile: Seq<char>,
    name: Seq<char>,
)
    requires
        spec_find_preset(pf, shader, profile) matches Some(p) && p.uniforms@.contains_key(name),
    ensures
        ({
            let p = spec_find_preset(pf, shader, profile)->0;
            let new = spec_apply_profile(old, pf, shader, profile);
            &&& new.values.contains_key(name) && new.values[name] == p.uniforms@[name]
            &&& new.targets.contains_key(name) && new.targets[name] == p.uniforms@[name]
        }),
{
}

/// Only a frame writes values: a controller value, a write by name and an
/// OSC message change targets and smoothing, and leave every value, every
/// range and the bindings as they were.
pub proof fn lemma_inputs_keep_values<F: Fn(Sample, Sample, Drive) -> Sample>(
    shape: F,
    old: StoreView,
    new: StoreView,
    m: ParamMapping,
    value: u8,
    name: Seq<char>,
    normalized: bool,
    input: Sample,
    at: OscMappingResolved,
)
    requires
        spec_controller_write(shape, old, new, m, value) || spec_direct_write(
            shape,
            old,
            new,
            name,
            normalized,
            input,
        ) || spec_mapped_write(shape, old, new, at, input),
    ensures
        new.values == old.values,
        new.ranges == old.ranges,
        new.bindings == old.bindings,
{
}

/// A frame writes values only: targets, smoothing, ranges and bindings
/// are as they were, and no parameter comes or goes.
pub proof fn lemma_tick_keeps_targets<G: Fn(Sample, Sample, Sample) -> Sample>(
    step: G,
    old: StoreView,
    new: StoreView,
)
    requires
        spec_ticked(step, old, new),
    ensures
        new.targets == old.targets,
        new.smoothing == old.smoothing,
        new.ranges == old.ranges,
        new.bindings == old.bindings,
        new.values.dom() == old.values.dom(),
{
}

} // verus!
