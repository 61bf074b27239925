use shadecore::midi::MidiGlobalCfg;
use shadecore::names::NameMap;
use shadecore::osc::OscCfg;
use shadecore::params::{ParamsFile, ProfileHotkeysCfg, ProfilePreset};
use shadecore::profile::{
    default_or_first, pick_active_profile_for_shader, set_active_profile_for_shader,
    sorted_profile_names_for_shader, step_profile, ProfileAction,
};

fn empty_file() -> ParamsFile {
    ParamsFile {
        version: 1,
        midi: MidiGlobalCfg { preferred_device_contains: None, channel: None },
        osc: OscCfg::default(),
        params: vec![],
        profiles: NameMap::new(),
        shader_profiles: NameMap::new(),
        active_shader_profiles: NameMap::new(),
        active_profile: None,
        profile_hotkeys: ProfileHotkeysCfg { next: vec![], prev: vec![], set: NameMap::new() },
    }
}

fn presets(names: &[&str]) -> NameMap<ProfilePreset> {
    let mut m = NameMap::new();
    for n in names {
        m.insert(n.to_string(), ProfilePreset::legacy(NameMap::new()));
    }
    m
}

#[test]
fn recorded_selection_of_shader_comes_first() {
    let mut pf = empty_file();
    pf.profiles = presets(&["default", "x"]);
    pf.shader_profiles.insert("a.frag".to_string(), presets(&["default", "wide"]));
    pf.active_shader_profiles.insert("a.frag".to_string(), "wide".to_string());
    pf.active_profile = Some("x".to_string());
    assert_eq!(pick_active_profile_for_shader(&pf, "a.frag").as_deref(), Some("wide"));
}

#[test]
fn shader_scope_offers_default_then_first_name() {
    let mut pf = empty_file();
    pf.profiles = presets(&["default"]);
    pf.active_profile = Some("default".to_string());
    pf.shader_profiles.insert("a.frag".to_string(), presets(&["zeta", "default", "alpha"]));
    pf.shader_profiles.insert("b.frag".to_string(), presets(&["zeta", "beta", "gamma"]));
    pf.shader_profiles.insert("c.frag".to_string(), presets(&[]));
    assert_eq!(pick_active_profile_for_shader(&pf, "a.frag").as_deref(), Some("default"));
    assert_eq!(pick_active_profile_for_shader(&pf, "b.frag").as_deref(), Some("beta"));
    assert_eq!(pick_active_profile_for_shader(&pf, "c.frag").as_deref(), Some("default"));
}

#[test]
fn scope_without_presets_counts_as_no_scope() {
    let mut pf = empty_file();
    pf.profiles = presets(&["warm", "cold"]);
    pf.shader_profiles.insert("c.frag".to_string(), presets(&[]));
    assert_eq!(pick_active_profile_for_shader(&pf, "c.frag").as_deref(), Some("cold"));
    assert_eq!(sorted_profile_names_for_shader(&pf, "c.frag"), vec!["cold", "warm"]);
    pf.profiles = presets(&["warm", "default", "cold"]);
    assert_eq!(pick_active_profile_for_shader(&pf, "c.frag").as_deref(), Some("default"));
    pf.active_profile = Some("warm".to_string());
    assert_eq!(pick_active_profile_for_shader(&pf, "c.frag").as_deref(), Some("warm"));
    pf.active_shader_profiles.insert("c.frag".to_string(), "own".to_string());
    assert_eq!(pick_active_profile_for_shader(&pf, "c.frag").as_deref(), Some("own"));
    pf.profiles = presets(&[]);
    pf.active_profile = None;
    pf.active_shader_profiles = shadecore::names::NameMap::new();
    assert_eq!(pick_active_profile_for_shader(&pf, "c.frag"), None);
    assert!(sorted_profile_names_for_shader(&pf, "c.frag").is_empty());
}

#[test]
fn global_selection_then_default_then_first() {
    let mut pf = empty_file();
    assert_eq!(pick_active_profile_for_shader(&pf, "a.frag"), None);
    pf.profiles = presets(&["m", "b"]);
    assert_eq!(pick_active_profile_for_shader(&pf, "a.frag").as_deref(), Some("b"));
    pf.profiles.insert("default".to_string(), ProfilePreset::legacy(NameMap::new()));
    assert_eq!(pick_active_profile_for_shader(&pf, "a.frag").as_deref(), Some("default"));
    pf.active_profile = Some("m".to_string());
    assert_eq!(pick_active_profile_for_shader(&pf, "a.frag").as_deref(), Some("m"));
}

#[test]
fn names_are_sorted_by_code_point() {
    let mut pf = empty_file();
    pf.profiles = presets(&["b", "B", "ab", "a", "é", "z"]);
    pf.shader_profiles.insert("s.frag".to_string(), presets(&["two", "one"]));
    assert_eq!(sorted_profile_names_for_shader(&pf, "other.frag"), vec!["B", "a", "ab", "b", "z", "é"]);
    assert_eq!(sorted_profile_names_for_shader(&pf, "s.frag"), vec!["one", "two"]);
}

#[test]
fn default_or_first_of_scope() {
    assert_eq!(default_or_first(&presets(&[])), None);
    assert_eq!(default_or_first(&presets(&["b", "a"])).as_deref(), Some("a"));
    assert_eq!(default_or_first(&presets(&["b", "default", "a"])).as_deref(), Some("default"));
}

#[test]
fn selection_is_recorded_per_shader() {
    let mut pf = empty_file();
    set_active_profile_for_shader(&mut pf, "a.frag", "one");
    set_active_profile_for_shader(&mut pf, "b.frag", "two");
    set_active_profile_for_shader(&mut pf, "a.frag", "three");
    assert_eq!(pf.active_shader_profiles.get("a.frag").map(|s| s.as_str()), Some("three"));
    assert_eq!(pf.active_shader_profiles.get("b.frag").map(|s| s.as_str()), Some("two"));
    assert_eq!(pf.active_shader_profiles.len(), 2);
}

#[test]
fn stepping_goes_round() {
    let names: Vec<String> = vec!["a".to_string(), "b".to_string(), "c".to_string()];
    assert_eq!(step_profile(&names, Some("a"), ProfileAction::Next).as_deref(), Some("b"));
    assert_eq!(step_profile(&names, Some("c"), ProfileAction::Next).as_deref(), Some("a"));
    assert_eq!(step_profile(&names, Some("a"), ProfileAction::Prev).as_deref(), Some("c"));
    assert_eq!(step_profile(&names, Some("b"), ProfileAction::Prev).as_deref(), Some("a"));
    assert_eq!(step_profile(&names, None, ProfileAction::Next).as_deref(), Some("b"));
    assert_eq!(step_profile(&names, Some("nope"), ProfileAction::Prev).as_deref(), Some("c"));
    assert_eq!(
        step_profile(&names, Some("a"), ProfileAction::Select("zz".to_string())).as_deref(),
        Some("zz")
    );
    assert_eq!(step_profile(&vec![], Some("a"), ProfileAction::Next), None);
    assert_eq!(step_profile(&vec![], None, ProfileAction::Select("x".to_string())), None);
}
