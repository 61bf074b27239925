use shadecore::bindings::build_mappings;
use shadecore::midi::{MidiBinding, MidiGlobalCfg};
use shadecore::names::NameMap;
use shadecore::osc::{OscCfg, OscMappingCfg, OscRuntime};
use shadecore::params::{ParamDef, ParamsFile, ProfileHotkeysCfg, ProfilePreset, Sample};
use shadecore::store::{Drive, ParamStore};

fn s(x: f32) -> Sample {
    Sample { bits: x.to_bits() }
}

fn f(x: Sample) -> f32 {
    f32::from_bits(x.bits)
}

fn shape(mn: Sample, mx: Sample, d: Drive) -> Sample {
    let (a, b) = (f(mn), f(mx));
    let v = match d {
        Drive::Controller(v) => a + (b - a) * (v as f32 / 127.0),
        Drive::Normalized(x) => a + (b - a) * f(x).clamp(0.0, 1.0),
        Drive::Raw(x) => f(x).max(a.min(b)).min(a.max(b)),
    };
    s(v)
}

fn step(cur: Sample, target: Sample, smooth: Sample) -> Sample {
    let sm = f(smooth).clamp(0.0, 1.0);
    let alpha = if sm <= 0.0 { 1.0 } else { (1.0 - sm).clamp(0.001, 1.0) };
    s(f(cur) + (f(target) - f(cur)) * alpha)
}

fn def(name: &str, default: f32, min: f32, max: f32, smoothing: f32, midi: Option<(u8, Option<u8>)>) -> ParamDef {
    ParamDef {
        name: name.to_string(),
        kind: None,
        default: s(default),
        min: s(min),
        max: s(max),
        smoothing: s(smoothing),
        midi: midi.map(|(cc, channel)| MidiBinding { cc, channel }),
    }
}

fn file(params: Vec<ParamDef>) -> ParamsFile {
    ParamsFile {
        version: 1,
        midi: MidiGlobalCfg { preferred_device_contains: None, channel: None },
        osc: OscCfg::default(),
        params,
        profiles: NameMap::new(),
        shader_profiles: NameMap::new(),
        active_shader_profiles: NameMap::new(),
        active_profile: None,
        profile_hotkeys: ProfileHotkeysCfg { next: vec![], prev: vec![], set: NameMap::new() },
    }
}

fn preset(values: &[(&str, f32)]) -> ProfilePreset {
    let mut uniforms = NameMap::new();
    for (k, v) in values {
        uniforms.insert(k.to_string(), s(*v));
    }
    ProfilePreset::legacy(uniforms)
}

#[test]
fn controller_sets_target_and_tick_smooths() {
    let pf = file(vec![def("gain", 1.0, 0.0, 2.0, 0.1, Some((7, Some(0))))]);
    let mut store = ParamStore::new(&pf);
    assert_eq!(store.value("gain"), Some(s(1.0)));
    assert!(store.set_cc(0, 7, 127, shape));
    assert_eq!(store.target("gain"), Some(s(2.0)));
    assert_eq!(store.value("gain"), Some(s(1.0)));
    assert_eq!(store.smoothing("gain"), Some(s(0.1)));
    store.tick(step);
    let v = f(store.value("gain").unwrap());
    assert!((v - 1.9).abs() < 1e-6);
    assert_eq!(store.value("gain"), Some(s(1.0 + (2.0 - 1.0) * (1.0f32 - 0.1))));
}

#[test]
fn controller_midpoint_maps_linearly() {
    let pf = file(vec![def("zoom", 1.0, 1.0, 3.0, 0.0, Some((20, Some(2))))]);
    let mut store = ParamStore::new(&pf);
    assert!(store.set_cc(2, 20, 0, shape));
    assert_eq!(store.target("zoom"), Some(s(1.0)));
    assert!(store.set_cc(2, 20, 127, shape));
    assert_eq!(store.target("zoom"), Some(s(3.0)));
}

#[test]
fn tick_at_equilibrium_changes_nothing() {
    let pf = file(vec![def("a", 0.25, 0.0, 1.0, 0.5, None), def("b", 7.0, 0.0, 10.0, 0.0, None)]);
    let mut store = ParamStore::new(&pf);
    store.tick(step);
    store.tick(step);
    assert_eq!(store.value("a"), Some(s(0.25)));
    assert_eq!(store.value("b"), Some(s(7.0)));
    assert_eq!(store.target("a"), Some(s(0.25)));
}

#[test]
fn tick_without_smoothing_snaps() {
    let pf = file(vec![def("a", 0.0, 0.0, 1.0, 0.0, Some((1, None)))]);
    let mut store = ParamStore::new(&pf);
    assert!(store.set_cc(5, 1, 127, shape));
    store.tick(step);
    assert_eq!(store.value("a"), Some(s(1.0)));
}

#[test]
fn ticks_converge_monotonically() {
    let pf = file(vec![def("a", 0.0, 0.0, 1.0, 0.5, Some((1, None)))]);
    let mut store = ParamStore::new(&pf);
    assert!(store.set_cc(0, 1, 127, shape));
    let mut last = f(store.value("a").unwrap());
    for _ in 0..40 {
        store.tick(step);
        let now = f(store.value("a").unwrap());
        assert!(now >= last);
        assert!(now <= 1.0);
        last = now;
    }
    assert!((1.0 - last) < 1e-6);
}

#[test]
fn exact_binding_wins_over_wildcard() {
    let pf = file(vec![
        def("wild", 0.0, 0.0, 1.0, 0.0, Some((7, None))),
        def("exact", 0.0, 0.0, 1.0, 0.0, Some((7, Some(3)))),
    ]);
    let mut store = ParamStore::new(&pf);
    assert!(store.set_cc(2, 7, 127, shape));
    assert_eq!(store.target("exact"), Some(s(1.0)));
    assert_eq!(store.target("wild"), Some(s(0.0)));
    assert!(store.set_cc(9, 7, 127, shape));
    assert_eq!(store.target("wild"), Some(s(1.0)));
}

#[test]
fn one_based_channel_in_binding_is_normalized() {
    let pf = file(vec![def("p", 0.0, 0.0, 1.0, 0.0, Some((7, Some(16))))]);
    let store = ParamStore::new(&pf);
    assert!(store.mappings().get(15, 7).is_some());
    assert!(store.mappings().get(16, 7).is_none());
}

#[test]
fn ambiguous_controller_is_rejected() {
    let pf = file(vec![
        def("a", 0.0, 0.0, 1.0, 0.0, Some((7, Some(1)))),
        def("b", 0.0, 0.0, 1.0, 0.0, Some((7, Some(2)))),
    ]);
    let mut store = ParamStore::new(&pf);
    assert!(!store.set_cc(5, 7, 127, shape));
    assert_eq!(store.target("a"), Some(s(0.0)));
    assert_eq!(store.target("b"), Some(s(0.0)));
    assert!(store.set_cc(0, 7, 127, shape));
    assert_eq!(store.target("a"), Some(s(1.0)));
}

#[test]
fn sole_binding_takes_any_channel() {
    let pf = file(vec![def("a", 0.0, 0.0, 4.0, 0.0, Some((9, Some(1))))]);
    let mut store = ParamStore::new(&pf);
    assert!(store.set_cc(12, 9, 127, shape));
    assert_eq!(store.target("a"), Some(s(4.0)));
    assert!(!store.set_cc(12, 10, 127, shape));
}

#[test]
fn global_channel_and_overrides_shape_the_table() {
    let params = vec![
        def("a", 0.0, 0.0, 1.0, 0.0, Some((1, None))),
        def("b", 0.0, 0.0, 1.0, 0.0, Some((2, Some(5)))),
        def("c", 0.0, 0.0, 1.0, 0.0, None),
    ];
    let midi = MidiGlobalCfg { preferred_device_contains: None, channel: Some(3) };
    let mut overrides = NameMap::new();
    overrides.insert("b".to_string(), 40u8);
    let table = build_mappings(&params, &midi, &overrides);
    assert_eq!(table.len(), 2);
    assert_eq!(table.get(2, 1).unwrap().name, "a");
    assert_eq!(table.get(4, 40).unwrap().name, "b");
    assert!(table.get(4, 2).is_none());
}

#[test]
fn later_definition_replaces_earlier_binding() {
    let params = vec![
        def("first", 0.0, 0.0, 1.0, 0.0, Some((1, Some(0)))),
        def("second", 0.0, 0.0, 1.0, 0.0, Some((1, Some(0)))),
    ];
    let midi = MidiGlobalCfg { preferred_device_contains: None, channel: None };
    let table = build_mappings(&params, &midi, &NameMap::new());
    assert_eq!(table.len(), 1);
    assert_eq!(table.get(0, 1).unwrap().name, "second");
}

#[test]
fn normalized_osc_clamps_to_top_of_range() {
    let pf = file(vec![def("gain", 1.0, 0.0, 2.0, 0.1, None)]);
    let mut store = ParamStore::new(&pf);
    let osc = OscCfg::default();
    let r = store.apply_osc(&osc, "/shadecore/param/gain", Some(s(1.5)), shape);
    let (name, target, normalized) = r.unwrap();
    assert_eq!(name, "gain");
    assert_eq!(target, s(2.0));
    assert!(normalized);
    assert_eq!(store.target("gain"), Some(s(2.0)));
    assert_eq!(store.smoothing("gain"), Some(s(0.1)));
}

#[test]
fn raw_osc_clamps_to_range() {
    let pf = file(vec![def("gain", 1.0, 0.0, 2.0, 0.1, None)]);
    let mut store = ParamStore::new(&pf);
    let osc = OscCfg::default();
    let r = store.apply_osc(&osc, " /shadecore/raw/gain/ ", Some(s(-3.0)), shape).unwrap();
    assert_eq!((r.0.as_str(), r.1, r.2), ("gain", s(0.0), false));
    let r = store.apply_osc(&osc, "/shadecore/raw/gain", Some(s(1.25)), shape).unwrap();
    assert_eq!(r.1, s(1.25));
}

#[test]
fn osc_param_shape_is_raw_when_config_is_not_normalized() {
    let pf = file(vec![def("gain", 1.0, 0.0, 2.0, 0.1, None)]);
    let mut store = ParamStore::new(&pf);
    let mut osc = OscCfg::default();
    osc.normalized = false;
    let r = store.apply_osc(&osc, "/shadecore/param/gain", Some(s(1.5)), shape).unwrap();
    assert_eq!((r.1, r.2), (s(1.5), false));
}

#[test]
fn osc_that_does_not_apply_changes_nothing() {
    let pf = file(vec![def("gain", 1.0, 0.0, 2.0, 0.1, None)]);
    let mut store = ParamStore::new(&pf);
    let osc = OscCfg::default();
    assert!(store.apply_osc(&osc, "/shadecore/param/nope", Some(s(0.5)), shape).is_none());
    assert!(store.apply_osc(&osc, "/shadecore/param/gain", None, shape).is_none());
    assert!(store.apply_osc(&osc, "/shadecore/param/", Some(s(0.5)), shape).is_none());
    assert!(store.apply_osc(&osc, "/other/param/gain", Some(s(0.5)), shape).is_none());
    assert!(store.apply_osc(&osc, "/shadecore/get/gain", Some(s(0.5)), shape).is_none());
    assert_eq!(store.target("gain"), Some(s(1.0)));
    assert_eq!(store.target("nope"), None);
}

fn mapping(addr: &str, param: &str, range: Option<(f32, f32)>, smooth: Option<f32>, mode: Option<&str>) -> OscMappingCfg {
    OscMappingCfg {
        addr: addr.to_string(),
        param: param.to_string(),
        min: range.map(|r| s(r.0)),
        max: range.map(|r| s(r.1)),
        smooth: smooth.map(s),
        mode: mode.map(|m| m.to_string()),
    }
}

#[test]
fn configured_address_overrides_range_smoothing_and_mode() {
    let pf = file(vec![def("gain", 1.0, 0.0, 2.0, 0.1, None)]);
    let mut store = ParamStore::new(&pf);
    let mut cfg = OscCfg::default();
    cfg.mappings = vec![
        mapping("/fader/1", "gain", Some((10.0, 20.0)), Some(0.7), None),
        mapping("knob", "gain", None, None, Some("RAW")),
    ];
    let rt = OscRuntime::new(cfg);
    let r = store.apply_osc_runtime(&rt, "/fader/1", Some(s(0.5)), shape).unwrap();
    assert_eq!((r.0.as_str(), r.1, r.2), ("gain", s(15.0), true));
    assert_eq!(store.smoothing("gain"), Some(s(0.7)));
    let r = store.apply_osc_runtime(&rt, "/shadecore/knob", Some(s(5.0)), shape).unwrap();
    assert_eq!((r.1, r.2), (s(2.0), false));
    assert_eq!(store.smoothing("gain"), Some(s(0.7)));
    assert!(store.apply_osc_runtime(&rt, "/fader/1", None, shape).is_none());
    let r = store.apply_osc_runtime(&rt, "/shadecore/param/gain", Some(s(0.25)), shape).unwrap();
    assert_eq!((r.1, r.2), (s(0.5), true));
}

#[test]
fn configured_address_for_unknown_parameter_is_not_applied() {
    let pf = file(vec![def("gain", 1.0, 0.0, 2.0, 0.1, None)]);
    let mut store = ParamStore::new(&pf);
    let mut cfg = OscCfg::default();
    cfg.mappings = vec![mapping("/x", "missing", None, None, None)];
    let rt = OscRuntime::new(cfg);
    assert!(store.apply_osc_runtime(&rt, "/x", Some(s(0.5)), shape).is_none());
    assert_eq!(store.target("missing"), None);
}

#[test]
fn set_target_by_name() {
    let pf = file(vec![def("gain", 1.0, 0.5, 2.5, 0.1, None)]);
    let mut store = ParamStore::new(&pf);
    assert!(store.set_target_normalized("gain", s(0.5), shape));
    assert_eq!(store.target("gain"), Some(s(1.5)));
    assert!(store.set_target_raw("gain", s(9.0), shape));
    assert_eq!(store.target("gain"), Some(s(2.5)));
    assert!(!store.set_target_raw("nope", s(9.0), shape));
    assert!(!store.set_target_normalized("nope", s(0.1), shape));
}

#[test]
fn reload_keeps_target_in_flight() {
    let pf = file(vec![
        def("gain", 1.0, 0.0, 2.0, 0.5, Some((7, Some(0)))),
        def("old", 3.0, 0.0, 4.0, 0.0, None),
    ]);
    let mut store = ParamStore::new(&pf);
    assert!(store.set_cc(0, 7, 127, shape));
    store.tick(step);
    let value = store.value("gain").unwrap();
    assert_ne!(value, s(2.0));
    let new_pf = file(vec![
        def("gain", 0.25, 0.0, 8.0, 0.9, Some((8, Some(0)))),
        def("fresh", 5.0, 0.0, 10.0, 0.2, None),
    ]);
    store.apply_params_file(&new_pf, None);
    assert_eq!(store.target("gain"), Some(s(2.0)));
    assert_eq!(store.value("gain"), Some(value));
    assert_eq!(store.smoothing("gain"), Some(s(0.5)));
    assert_eq!(store.range("gain"), Some((s(0.0), s(8.0))));
    assert_eq!(store.value("fresh"), Some(s(5.0)));
    assert_eq!(store.target("fresh"), Some(s(5.0)));
    assert_eq!(store.value("old"), None);
    assert_eq!(store.target("old"), None);
    assert_eq!(store.len(), 2);
    assert!(store.mappings().get(0, 7).is_none());
    assert!(store.mappings().get(0, 8).is_some());
}

#[test]
fn reload_applies_active_global_profile() {
    let pf = file(vec![def("gain", 1.0, 0.0, 2.0, 0.5, Some((7, None)))]);
    let mut store = ParamStore::new(&pf);
    let mut new_pf = file(vec![def("gain", 1.0, 0.0, 2.0, 0.5, Some((7, None)))]);
    let mut p = preset(&[("gain", 0.3)]);
    p.midi = Some(MidiGlobalCfg { preferred_device_contains: Some("akai".to_string()), channel: Some(2) });
    p.cc_overrides.insert("gain".to_string(), 12);
    new_pf.profiles.insert("lofi".to_string(), p);
    let midi = store.apply_params_file(&new_pf, Some("lofi"));
    assert_eq!(midi.channel, Some(2));
    assert_eq!(midi.preferred_device_contains.as_deref(), Some("akai"));
    assert_eq!(store.value("gain"), Some(s(0.3)));
    assert_eq!(store.target("gain"), Some(s(0.3)));
    assert!(store.mappings().get(1, 12).is_some());
    let midi = store.apply_params_file(&new_pf, Some("missing"));
    assert_eq!(midi.channel, None);
    assert!(store.mappings().get(255, 7).is_some());
}

#[test]
fn profile_falls_back_to_global_preset() {
    let mut pf = file(vec![def("gain", 1.0, 0.0, 2.0, 0.1, Some((7, None)))]);
    pf.profiles.insert("lofi".to_string(), preset(&[("gain", 0.3)]));
    let mut scoped = NameMap::new();
    scoped.insert("default".to_string(), preset(&[("gain", 1.5)]));
    pf.shader_profiles.insert("shaders/a.frag".to_string(), scoped);
    let mut store = ParamStore::new(&pf);
    store.apply_profile(&pf, Some("shaders/a.frag"), "lofi");
    assert_eq!(store.value("gain"), Some(s(0.3)));
    assert_eq!(store.target("gain"), Some(s(0.3)));
    store.apply_profile(&pf, Some("shaders/a.frag"), "default");
    assert_eq!(store.value("gain"), Some(s(1.5)));
    store.apply_profile(&pf, None, "lofi");
    assert_eq!(store.value("gain"), Some(s(0.3)));
}

#[test]
fn unknown_profile_keeps_bindings() {
    let mut pf = file(vec![def("gain", 1.0, 0.0, 2.0, 0.1, Some((7, None)))]);
    let mut p = preset(&[]);
    p.cc_overrides.insert("gain".to_string(), 30);
    pf.profiles.insert("alt".to_string(), p);
    let mut store = ParamStore::new(&pf);
    store.apply_profile(&pf, None, "alt");
    assert!(store.mappings().get(255, 30).is_some());
    assert!(store.mappings().get(255, 7).is_none());
    let midi = store.apply_profile(&pf, None, "nope");
    assert_eq!(midi.channel, None);
    assert!(store.mappings().get(255, 30).is_some());
    assert_eq!(store.value("gain"), Some(s(1.0)));
}

#[test]
fn profile_value_for_undefined_name_is_kept_and_ticked() {
    let mut pf = file(vec![def("gain", 1.0, 0.0, 2.0, 0.1, None)]);
    pf.profiles.insert("p".to_string(), preset(&[("extra", 4.0)]));
    let mut store = ParamStore::new(&pf);
    store.apply_profile(&pf, None, "p");
    assert_eq!(store.value("extra"), Some(s(4.0)));
    assert_eq!(store.range("extra"), None);
    assert!(store.set_target_normalized("extra", s(0.5), shape));
    assert_eq!(store.target("extra"), Some(s(0.5)));
    assert_eq!(store.smoothing("extra"), Some(s(0.0)));
    store.tick(step);
    assert_eq!(store.value("extra"), Some(s(0.5)));
    assert_eq!(store.name_at(1), "extra");
}

#[test]
fn sorted_names_of_store() {
    let pf = file(vec![def("b", 0.0, 0.0, 1.0, 0.0, None), def("a", 0.0, 0.0, 1.0, 0.0, None)]);
    let store = ParamStore::new(&pf);
    assert_eq!(store.sorted_names(), vec!["a".to_string(), "b".to_string()]);
    assert_eq!(store.name_at(0), "b");
}

#[test]
fn zero_and_one_are_the_numbers() {
    assert_eq!(Sample::zero(), s(0.0));
    assert_eq!(Sample::one(), s(1.0));
}

#[test]
fn frames_leave_a_geometric_share_of_the_way() {
    let pf = file(vec![def("a", 0.0, 0.0, 10.0, 0.9, Some((1, None)))]);
    let mut store = ParamStore::new(&pf);
    assert!(store.set_cc(0, 1, 127, shape));
    assert_eq!(store.target("a"), Some(s(10.0)));
    let alpha = 1.0f64 - 0.9f32 as f64;
    let tolerance = 1e-5f64;
    let mut left = 1.0f64;
    for _ in 0..200 {
        store.tick(step);
        left *= 1.0 - alpha;
        let distance = (10.0 - f(store.value("a").unwrap()) as f64).abs();
        assert!(distance <= left * 10.0 + tolerance / alpha);
        assert!(distance >= left * 10.0 - tolerance / alpha);
        assert_eq!(store.target("a"), Some(s(10.0)));
    }
    assert!((10.0 - f(store.value("a").unwrap())).abs() < 1e-4);
}

#[test]
fn equilibrium_holds_for_every_smoothing_and_frame() {
    let pf = file(vec![
        def("a", 0.3, 0.0, 1.0, 0.0, None),
        def("b", -7.25, -10.0, 10.0, 0.999, None),
        def("c", 1.0e-30, 0.0, 1.0, 5.0, None),
        def("moving", 0.0, 0.0, 1.0, 0.5, Some((1, None))),
    ]);
    let mut store = ParamStore::new(&pf);
    assert!(store.set_cc(0, 1, 127, shape));
    for _ in 0..100 {
        store.tick(step);
        assert_eq!(store.value("a"), Some(s(0.3)));
        assert_eq!(store.value("b"), Some(s(-7.25)));
        assert_eq!(store.value("c"), Some(s(1.0e-30)));
    }
    assert!(f(store.value("moving").unwrap()) > 0.99);
}

#[test]
fn normalized_input_above_one_reaches_top_through_any_address() {
    let pf = file(vec![def("gain", 1.0, 0.5, 2.5, 0.1, None)]);
    let mut store = ParamStore::new(&pf);
    let cfg = OscCfg {
        mappings: vec![mapping("/fader", "gain", None, None, None), mapping("/wide", "gain", Some((-4.0, 4.0)), None, None)],
        ..OscCfg::default()
    };
    let rt = OscRuntime::new(cfg);
    for x in [1.0f32, 1.5, 1.0e9] {
        let r = store.apply_osc_runtime(&rt, "/shadecore/param/gain", Some(s(x)), shape).unwrap();
        assert_eq!((r.0.as_str(), r.1, r.2), ("gain", s(2.5), true));
        let r = store.apply_osc_runtime(&rt, "/fader", Some(s(x)), shape).unwrap();
        assert_eq!((r.0.as_str(), r.1, r.2), ("gain", s(2.5), true));
        let r = store.apply_osc_runtime(&rt, "/wide", Some(s(x)), shape).unwrap();
        assert_eq!((r.0.as_str(), r.1, r.2), ("gain", s(4.0), true));
        assert_eq!(store.target("gain"), Some(s(4.0)));
    }
    for x in [0.0f32, -0.5, -1.0e9] {
        let r = store.apply_osc_runtime(&rt, "/fader", Some(s(x)), shape).unwrap();
        assert_eq!(r.1, s(0.5));
    }
}
