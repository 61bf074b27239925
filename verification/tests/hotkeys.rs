use shadecore::capture::RecHotkeyAction;
use shadecore::hotkeys::{
    build_hotkey_map, build_preview_hotkey_map, build_profile_hotkey_map, build_recording_hotkey_map,
    default_hotkeys_ndi, default_hotkeys_spout, default_hotkeys_stream, default_hotkeys_syphon,
    default_hotkeys_texture, default_preview_enabled, default_preview_hotkeys_fill,
    default_preview_hotkeys_fit, default_preview_hotkeys_pixel, default_preview_hotkeys_stretch,
    default_preview_scale_mode, parse_keycode, preview_scale_mode_name, profile_action, step_variant,
    variant_step, HotkeysCfg, Key, KeyMap, PreviewCfg, PreviewHotkeysCfg, PreviewScaleMode, ProfileKey,
    VariantStep,
};
use shadecore::midi::MidiGlobalCfg;
use shadecore::names::NameMap;
use shadecore::osc::OscCfg;
use shadecore::output::OutputMode;
use shadecore::params::{ParamsFile, ProfileHotkeysCfg};
use shadecore::profile::ProfileAction;
use shadecore::recording::RecordingCfg;

fn strings(xs: &[&str]) -> Vec<String> {
    xs.iter().map(|s| s.to_string()).collect()
}

#[test]
fn key_names_are_read() {
    assert_eq!(parse_keycode("Digit0"), Some(Key::Digit0));
    assert_eq!(parse_keycode("Digit9"), Some(Key::Digit9));
    assert_eq!(parse_keycode("Numpad4"), Some(Key::Numpad4));
    assert_eq!(parse_keycode("Insert"), Some(Key::Insert));
    assert_eq!(parse_keycode("PageUp"), Some(Key::PageUp));
    assert_eq!(parse_keycode("KeyT"), Some(Key::KeyT));
    assert_eq!(parse_keycode("KeyR"), Some(Key::KeyR));
    assert_eq!(parse_keycode("KeyS"), Some(Key::KeyS));
    assert_eq!(parse_keycode("BracketLeft"), Some(Key::BracketLeft));
    assert_eq!(parse_keycode("BracketRight"), Some(Key::BracketRight));
    assert_eq!(parse_keycode("KeyM"), Some(Key::KeyM));
    assert_eq!(parse_keycode("keym"), None);
    assert_eq!(parse_keycode("Quote"), None);
    assert_eq!(parse_keycode(""), None);
    assert_eq!(parse_keycode("KeyZ"), None);
}

#[test]
fn default_key_lists() {
    assert_eq!(default_hotkeys_texture(), vec!["Digit1", "Numpad1"]);
    assert_eq!(default_hotkeys_syphon(), vec!["Digit2", "Numpad2"]);
    assert_eq!(default_hotkeys_spout(), vec!["Digit3", "Numpad3"]);
    assert_eq!(default_hotkeys_stream(), vec!["Digit4", "Numpad4"]);
    assert_eq!(default_hotkeys_ndi(), vec!["Digit6", "Numpad6"]);
    assert_eq!(default_preview_hotkeys_fit(), vec!["Digit7", "Numpad7"]);
    assert_eq!(default_preview_hotkeys_fill(), vec!["Digit8", "Numpad8"]);
    assert_eq!(default_preview_hotkeys_stretch(), vec!["Digit9", "Numpad9"]);
    assert_eq!(default_preview_hotkeys_pixel(), vec!["Digit0", "Numpad0"]);
    assert!(default_preview_enabled());
    assert_eq!(default_preview_scale_mode(), PreviewScaleMode::Fit);
    let p = PreviewCfg::default();
    assert!(p.enabled);
    assert_eq!(p.scale_mode, PreviewScaleMode::Fit);
}

#[test]
fn output_hotkeys() {
    let map = build_hotkey_map(&HotkeysCfg::default());
    assert_eq!(map.get(Key::Digit1), Some(&OutputMode::Texture));
    assert_eq!(map.get(Key::Numpad2), Some(&OutputMode::Syphon));
    assert_eq!(map.get(Key::Digit3), Some(&OutputMode::Spout));
    assert_eq!(map.get(Key::Numpad4), Some(&OutputMode::Stream));
    assert_eq!(map.get(Key::Digit6), Some(&OutputMode::Ndi));
    assert_eq!(map.get(Key::Digit5), None);
    let cfg = HotkeysCfg {
        texture: strings(&["KeyT", "Bogus"]),
        syphon: strings(&["KeyT"]),
        spout: vec![],
        stream: strings(&["KeyS", "KeyS"]),
        ndi: strings(&["KeyN"]),
    };
    let map = build_hotkey_map(&cfg);
    assert_eq!(map.get(Key::KeyT), Some(&OutputMode::Syphon));
    assert_eq!(map.get(Key::KeyS), Some(&OutputMode::Stream));
    assert_eq!(map.get(Key::KeyN), Some(&OutputMode::Ndi));
    assert!(!map.contains_key(Key::Digit1));
}

#[test]
fn preview_hotkeys_and_scale_modes() {
    let map = build_preview_hotkey_map(&PreviewHotkeysCfg::default());
    assert_eq!(map.get(Key::Digit7), Some(&0));
    assert_eq!(map.get(Key::Numpad8), Some(&1));
    assert_eq!(map.get(Key::Digit9), Some(&2));
    assert_eq!(map.get(Key::Numpad0), Some(&3));
    assert_eq!(PreviewScaleMode::Fit.as_i32(), 0);
    assert_eq!(PreviewScaleMode::Fill.as_i32(), 1);
    assert_eq!(PreviewScaleMode::Stretch.as_i32(), 2);
    assert_eq!(PreviewScaleMode::Pixel.as_i32(), 3);
    assert_eq!(PreviewScaleMode::Fit.as_str(), "fit");
    assert_eq!(PreviewScaleMode::Fill.as_str(), "fill");
    assert_eq!(PreviewScaleMode::Stretch.as_str(), "stretch");
    assert_eq!(PreviewScaleMode::Pixel.as_str(), "pixel");
    assert_eq!(preview_scale_mode_name(0), "FIT");
    assert_eq!(preview_scale_mode_name(1), "FILL");
    assert_eq!(preview_scale_mode_name(2), "STRETCH");
    assert_eq!(preview_scale_mode_name(3), "PIXEL");
    assert_eq!(preview_scale_mode_name(4), "UNKNOWN");
    assert_eq!(preview_scale_mode_name(-1), "UNKNOWN");
}

#[test]
fn recording_hotkeys_have_stand_ins() {
    let mut cfg = RecordingCfg::default();
    let map = build_recording_hotkey_map(&cfg);
    assert_eq!(map.get(Key::KeyR), Some(&RecHotkeyAction::Start));
    assert_eq!(map.get(Key::KeyS), Some(&RecHotkeyAction::Stop));
    assert_eq!(map.get(Key::Numpad0), None);
    cfg.toggle_keys = strings(&["Numpad0"]);
    cfg.start_keys = strings(&["Numpad9"]);
    cfg.stop_keys = strings(&["Insert"]);
    let map = build_recording_hotkey_map(&cfg);
    assert_eq!(map.get(Key::Numpad0), Some(&RecHotkeyAction::Toggle));
    assert_eq!(map.get(Key::Digit0), Some(&RecHotkeyAction::Toggle));
    assert_eq!(map.get(Key::Insert), Some(&RecHotkeyAction::Stop));
    assert_eq!(map.get(Key::Numpad9), Some(&RecHotkeyAction::Start));
    assert_eq!(map.get(Key::Digit9), Some(&RecHotkeyAction::Start));
    assert_eq!(map.get(Key::PageUp), Some(&RecHotkeyAction::Start));
    assert_eq!(map.get(Key::KeyR), None);
}

fn params_with_hotkeys(next: &[&str], prev: &[&str], set: &[(&str, &[&str])]) -> ParamsFile {
    let mut table = NameMap::new();
    for (name, keys) in set {
        table.insert(name.to_string(), strings(keys));
    }
    ParamsFile {
        version: 1,
        midi: MidiGlobalCfg { preferred_device_contains: None, channel: None },
        osc: OscCfg::default(),
        params: vec![],
        profiles: NameMap::new(),
        shader_profiles: NameMap::new(),
        active_shader_profiles: NameMap::new(),
        active_profile: None,
        profile_hotkeys: ProfileHotkeysCfg { next: strings(next), prev: strings(prev), set: table },
    }
}

#[test]
fn profile_hotkeys_default_to_brackets() {
    let pf = params_with_hotkeys(&[], &[], &[]);
    let map = build_profile_hotkey_map(&pf);
    assert_eq!(map.get(Key::BracketRight), Some(&ProfileKey::Next));
    assert_eq!(map.get(Key::BracketLeft), Some(&ProfileKey::Prev));
    assert_eq!(map.get(Key::KeyN), None);
}

#[test]
fn profile_hotkeys_from_configuration() {
    let pf = params_with_hotkeys(
        &["KeyN", "BracketLeft"],
        &["KeyB"],
        &[("lofi", &["KeyL", "KeyN"]), ("default", &["KeyD", "BracketRight"])],
    );
    let map = build_profile_hotkey_map(&pf);
    assert_eq!(map.get(Key::KeyB), Some(&ProfileKey::Prev));
    assert_eq!(map.get(Key::KeyN), Some(&ProfileKey::Select(0)));
    assert_eq!(map.get(Key::KeyL), Some(&ProfileKey::Select(0)));
    assert_eq!(map.get(Key::KeyD), Some(&ProfileKey::Select(1)));
    assert_eq!(map.get(Key::BracketRight), Some(&ProfileKey::Select(1)));
    assert_eq!(map.get(Key::BracketLeft), Some(&ProfileKey::Next));
    assert!(matches!(profile_action(&pf, ProfileKey::Next), Some(ProfileAction::Next)));
    assert!(matches!(profile_action(&pf, ProfileKey::Prev), Some(ProfileAction::Prev)));
    match profile_action(&pf, ProfileKey::Select(1)) {
        Some(ProfileAction::Select(name)) => assert_eq!(name, "default"),
        _ => panic!("a direct binding selects its profile"),
    }
    assert!(profile_action(&pf, ProfileKey::Select(2)).is_none());
}

#[test]
fn key_table_replaces_bindings() {
    let mut map: KeyMap<u8> = KeyMap::new();
    assert_eq!(map.get(Key::KeyP), None);
    map.insert(Key::KeyP, 1);
    map.insert(Key::KeyO, 2);
    map.insert(Key::KeyP, 3);
    assert_eq!(map.get(Key::KeyP), Some(&3));
    assert_eq!(map.get(Key::KeyO), Some(&2));
    assert_eq!(map.get(Key::IntlBackslash), None);
    map.insert(Key::IntlBackslash, 9);
    assert_eq!(map.get(Key::IntlBackslash), Some(&9));
    assert_eq!(map.get(Key::Digit0), None);
}

#[test]
fn shader_variants_are_stepped_through() {
    assert_eq!(variant_step(Key::Quote), Some(VariantStep::Next));
    assert_eq!(variant_step(Key::Period), Some(VariantStep::Next));
    assert_eq!(variant_step(Key::Backquote), Some(VariantStep::Next));
    assert_eq!(variant_step(Key::Semicolon), Some(VariantStep::Prev));
    assert_eq!(variant_step(Key::Comma), Some(VariantStep::Prev));
    assert_eq!(variant_step(Key::IntlBackslash), Some(VariantStep::Prev));
    assert_eq!(variant_step(Key::KeyP), None);
    assert_eq!(step_variant(0, 3, VariantStep::Next), Some(1));
    assert_eq!(step_variant(2, 3, VariantStep::Next), Some(0));
    assert_eq!(step_variant(0, 3, VariantStep::Prev), Some(2));
    assert_eq!(step_variant(1, 3, VariantStep::Prev), Some(0));
    assert_eq!(step_variant(0, 1, VariantStep::Next), None);
    assert_eq!(step_variant(0, 0, VariantStep::Prev), None);
    assert_eq!(step_variant(7, 3, VariantStep::Next), Some(2));
    assert_eq!(step_variant(usize::MAX, 2, VariantStep::Next), Some(0));
}
