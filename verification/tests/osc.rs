use shadecore::introspect::{osc_try_introspect, parse_query, Query, ReplyArg};
use shadecore::midi::{
    choose_port, choose_port_lowered, merge_midi_cfg, should_log_control_change, MidiGlobalCfg,
};
use shadecore::names::NameMap;
use shadecore::osc::{
    default_osc_bind, default_osc_prefix, direct_route, full_address, mode_normalized, OscCfg,
    OscMappingCfg, OscRuntime,
};
use shadecore::params::{ParamDef, ParamsFile, ProfileHotkeysCfg, Sample};
use shadecore::store::ParamStore;

fn s(x: f32) -> Sample {
    Sample { bits: x.to_bits() }
}

fn mapping(addr: &str, param: &str, mode: Option<&str>) -> OscMappingCfg {
    OscMappingCfg {
        addr: addr.to_string(),
        param: param.to_string(),
        min: None,
        max: None,
        smooth: None,
        mode: mode.map(|m| m.to_string()),
    }
}

#[test]
fn osc_defaults() {
    let cfg = OscCfg::default();
    assert!(!cfg.enabled);
    assert!(cfg.normalized);
    assert_eq!(cfg.bind, "0.0.0.0:9000");
    assert_eq!(cfg.prefix, "/shadecore");
    assert!(cfg.mappings.is_empty());
    assert_eq!(default_osc_bind(), "0.0.0.0:9000");
    assert_eq!(default_osc_prefix(), "/shadecore");
}

#[test]
fn configured_addresses_are_completed() {
    assert_eq!(full_address("/shadecore", "/shadecore/x"), "/shadecore/x");
    assert_eq!(full_address("/shadecore", "/param/gain"), "/shadecore/param/gain");
    assert_eq!(full_address("/shadecore", "/raw/gain"), "/shadecore/raw/gain");
    assert_eq!(full_address("/shadecore", "/fader/1"), "/fader/1");
    assert_eq!(full_address("/shadecore", "param/gain"), "/shadecore/param/gain");
    assert_eq!(full_address("/shadecore", "knob"), "/shadecore/knob");
    assert_eq!(full_address("", "/anything"), "/anything");
    assert_eq!(full_address("", "x"), "x");
}

#[test]
fn mode_words() {
    assert!(!mode_normalized(Some("raw"), true));
    assert!(mode_normalized(Some("normalized"), false));
    assert!(mode_normalized(Some("norm"), false));
    assert!(mode_normalized(Some("param"), false));
    assert!(mode_normalized(Some("other"), true));
    assert!(!mode_normalized(Some("other"), false));
    assert!(!mode_normalized(Some("RAW"), false));
    assert!(mode_normalized(Some("RAW"), true));
    assert!(mode_normalized(None, true));
    assert!(!mode_normalized(None, false));
}

#[test]
fn address_table_is_built_in_order() {
    let mut cfg = OscCfg::default();
    cfg.prefix = "/sc//".to_string();
    cfg.normalized = false;
    cfg.mappings = vec![
        mapping("  /fader/1  ", "a", Some("NORM")),
        mapping("", "skipped", None),
        mapping("   ", "skipped", None),
        mapping("raw/x", "b", Some("Raw")),
        mapping("/fader/1", "c", None),
        mapping("/param/gain", "d", Some("Param")),
    ];
    let rt = OscRuntime::new(cfg);
    assert_eq!(rt.cfg().prefix, "/sc//");
    let m = rt.lookup("/fader/1").unwrap();
    assert_eq!((m.param.as_str(), m.normalized), ("c", false));
    let m = rt.lookup("/sc/raw/x").unwrap();
    assert_eq!((m.param.as_str(), m.normalized), ("b", false));
    let m = rt.lookup("/sc/param/gain").unwrap();
    assert_eq!((m.param.as_str(), m.normalized), ("d", true));
    assert!(rt.lookup("").is_none());
    assert!(rt.lookup("  /fader/1  ").is_none());
}

#[test]
fn mode_word_is_read_in_any_case() {
    let mut cfg = OscCfg::default();
    cfg.normalized = false;
    cfg.mappings = vec![mapping("/a", "a", Some("NORMALIZED")), mapping("/b", "b", Some("nOrM"))];
    let rt = OscRuntime::new(cfg);
    assert!(rt.lookup("/a").unwrap().normalized);
    assert!(rt.lookup("/b").unwrap().normalized);
}

#[test]
fn built_in_address_shapes() {
    let r = direct_route("/shadecore", "/shadecore/param/u_gain").unwrap();
    assert_eq!((r.normalized_shape, r.name.as_str()), (true, "u_gain"));
    let r = direct_route("/shadecore/", " /shadecore/raw//u_gain// ").unwrap();
    assert_eq!((r.normalized_shape, r.name.as_str()), (false, "u_gain"));
    let r = direct_route("/shadecore", "/shadecore/param/a/b").unwrap();
    assert_eq!(r.name, "a/b");
    assert!(direct_route("/shadecore", "/shadecore/param/").is_none());
    assert!(direct_route("/shadecore", "/shadecore/param///").is_none());
    assert!(direct_route("/shadecore", "/shadecore/list/params").is_none());
    assert!(direct_route("/shadecore", "/other/param/x").is_none());
    assert!(direct_route("/shadecore", "shadecore/param/x").is_none());
    let r = direct_route("", "/raw/x").unwrap();
    assert_eq!((r.normalized_shape, r.name.as_str()), (false, "x"));
}

#[test]
fn midi_settings_are_merged() {
    let base = MidiGlobalCfg { preferred_device_contains: Some("akai".to_string()), channel: Some(1) };
    let m = merge_midi_cfg(&base, None);
    assert_eq!((m.preferred_device_contains.as_deref(), m.channel), (Some("akai"), Some(1)));
    let over = MidiGlobalCfg { preferred_device_contains: None, channel: Some(9) };
    let m = merge_midi_cfg(&base, Some(over));
    assert_eq!((m.preferred_device_contains.as_deref(), m.channel), (Some("akai"), Some(9)));
    let over = MidiGlobalCfg { preferred_device_contains: Some("novation".to_string()), channel: None };
    let m = merge_midi_cfg(&base, Some(over));
    assert_eq!((m.preferred_device_contains.as_deref(), m.channel), (Some("novation"), Some(1)));
}

#[test]
fn preferred_port_is_chosen_without_regard_to_case() {
    let names = vec![
        Some("IAC Driver".to_string()),
        None,
        Some("Akai LPD8".to_string()),
        Some("AKAI APC".to_string()),
    ];
    assert_eq!(choose_port(&names, Some("akai")), Some(2));
    assert_eq!(choose_port(&names, Some("AKAI A")), Some(3));
    assert_eq!(choose_port(&names, Some("nothing")), Some(0));
    assert_eq!(choose_port(&names, None), Some(0));
    assert_eq!(choose_port(&names, Some("")), Some(0));
    assert_eq!(choose_port(&vec![], Some("akai")), None);
    assert_eq!(choose_port(&vec![None], Some("")), Some(0));
    assert_eq!(choose_port_lowered(&names, Some("akai")), Some(0));
    assert_eq!(choose_port_lowered(&names, Some("Akai")), Some(2));
}

#[test]
fn control_change_logging() {
    assert!(should_log_control_change(0, true));
    assert!(should_log_control_change(79, true));
    assert!(!should_log_control_change(80, true));
    assert!(should_log_control_change(80, false));
    assert!(should_log_control_change(usize::MAX, false));
}

fn store() -> ParamStore {
    let def = |name: &str, v: f32| ParamDef {
        name: name.to_string(),
        kind: None,
        default: s(v),
        min: s(0.0),
        max: s(2.0),
        smoothing: s(0.25),
        midi: None,
    };
    let pf = ParamsFile {
        version: 1,
        midi: MidiGlobalCfg { preferred_device_contains: None, channel: None },
        osc: OscCfg::default(),
        params: vec![def("u_zoom", 1.5), def("u_gain", 1.0)],
        profiles: NameMap::new(),
        shader_profiles: NameMap::new(),
        active_shader_profiles: NameMap::new(),
        active_profile: None,
        profile_hotkeys: ProfileHotkeysCfg { next: vec![], prev: vec![], set: NameMap::new() },
    };
    ParamStore::new(&pf)
}

fn texts(args: &[ReplyArg]) -> Vec<String> {
    args.iter()
        .map(|a| match a {
            ReplyArg::Text(t) => t.clone(),
            ReplyArg::Number(_) => panic!("a text was expected"),
        })
        .collect()
}

fn numbers(args: &[ReplyArg]) -> Vec<Sample> {
    args.iter()
        .map(|a| match a {
            ReplyArg::Number(n) => *n,
            ReplyArg::Text(_) => panic!("a number was expected"),
        })
        .collect()
}

#[test]
fn queries_are_recognized() {
    assert!(matches!(parse_query("/sc", "/sc/list/params"), Some(Query::ListParams)));
    assert!(matches!(parse_query("/sc", "/sc/list"), Some(Query::ListParams)));
    assert!(matches!(parse_query("/sc", "/sc/get/u_gain"), Some(Query::Get(n)) if n == "u_gain"));
    assert!(matches!(parse_query("/sc", "/sc/get/"), Some(Query::Get(n)) if n.is_empty()));
    assert!(matches!(parse_query("/sc", "/sc/list/mappings"), Some(Query::ListMappings)));
    assert!(matches!(parse_query("/sc", "/sc/mappings"), Some(Query::ListMappings)));
    assert!(parse_query("/sc", "/sc/param/u_gain").is_none());
    assert!(parse_query("/sc", "/sc/get").is_none());
    assert!(parse_query("/sc", "/other/list").is_none());
}

#[test]
fn parameter_list_is_answered_in_order() {
    let r = osc_try_introspect("/sc", "/sc/list/params", &store()).unwrap();
    assert_eq!(r.addr, "/sc/reply/list/params");
    assert_eq!(texts(&r.args), vec!["u_gain", "u_zoom"]);
}

#[test]
fn parameter_state_is_answered() {
    let r = osc_try_introspect("/sc", "/sc/get/u_zoom", &store()).unwrap();
    assert_eq!(r.addr, "/sc/reply/get/u_zoom");
    assert_eq!(numbers(&r.args), vec![s(1.5), s(1.5), s(0.0), s(2.0), s(0.25)]);
    let r = osc_try_introspect("/sc", "/sc/get/nope", &store()).unwrap();
    assert_eq!(r.addr, "/sc/reply/get/nope");
    assert_eq!(texts(&r.args), vec!["unknown_param"]);
}

#[test]
fn address_shapes_are_answered() {
    let r = osc_try_introspect("/sc", "/sc/mappings", &store()).unwrap();
    assert_eq!(r.addr, "/sc/reply/list/mappings");
    assert_eq!(
        texts(&r.args),
        vec![
            "prefix=/sc",
            "/sc/param/<name> (normalized 0..1)",
            "/sc/raw/<name> (raw value)",
            "/sc/list/params",
            "/sc/get/<name>",
        ]
    );
    assert!(osc_try_introspect("/sc", "/sc/param/u_gain", &store()).is_none());
}
