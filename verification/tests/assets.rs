use shadecore::assets::{
    discovery_candidates, find_assets_base_from, is_absolute, join, pick_platform_json,
    platform_json_candidate, resolve_assets_path, resolve_assets_path_as, join_as,
    resolve_config_paths_from, AssetsRoot, Platform,
    PlatformFiles,
};

#[test]
fn joining_paths() {
    assert_eq!(join("/a", "b"), "/a/b");
    assert_eq!(join("/a/", "b"), "/a/b");
    assert_eq!(join("", "b"), "b");
    assert_eq!(join("/a", "/b"), "/b");
    assert_eq!(join("a", ""), "a/");
    assert!(is_absolute("/x"));
    assert!(!is_absolute("x/"));
    assert!(!is_absolute(""));
}

#[test]
fn configured_paths_resolve_against_assets() {
    assert_eq!(resolve_assets_path("/app/assets", "shaders/a.frag"), "/app/assets/shaders/a.frag");
    assert_eq!(resolve_assets_path("/app/assets", "/abs/a.frag"), "/abs/a.frag");
}

#[test]
fn platform_file_wins_when_it_exists() {
    assert_eq!(pick_platform_json("/a", "params", Platform::Macos, true), "/a/params.macos.json");
    assert_eq!(pick_platform_json("/a", "params", Platform::Macos, false), "/a/params.json");
    assert_eq!(platform_json_candidate("/a", "output", Platform::Windows), "/a/output.windows.json");
    assert_eq!(platform_json_candidate("/a", "output", Platform::Linux), "/a/output.linux.json");
    assert_eq!(platform_json_candidate("/a", "output", Platform::Other), "/a/output.other.json");
}

#[test]
fn assets_root() {
    let root = AssetsRoot::at("/app/assets".to_string());
    assert_eq!(root.path(), "/app/assets");
    assert_eq!(root.join("render.json"), "/app/assets/render.json");
    assert_eq!(root.pick_platform_json("recording", Platform::Linux, true), "/app/assets/recording.linux.json");
    assert_eq!(find_assets_base_from("/start", Some(root)), "/app/assets");
    assert_eq!(find_assets_base_from("/start", None), "/start/assets");
}

#[test]
fn discovery_looks_upward() {
    let ancestors = vec!["/a/b".to_string(), "/a".to_string(), "/".to_string()];
    assert_eq!(discovery_candidates(&ancestors), vec!["/a/b/assets", "/a/assets", "/assets"]);
    assert!(discovery_candidates(&vec![]).is_empty());
}

#[test]
fn configuration_files_of_a_run() {
    let root = AssetsRoot::at("/x".to_string());
    let exists = PlatformFiles { params: true, output: false, recording: true };
    let paths = resolve_config_paths_from(&root, Platform::Linux, exists);
    assert_eq!(paths.assets_dir, "/x");
    assert_eq!(paths.render_json, "/x/render.json");
    assert_eq!(paths.params_json, "/x/params.linux.json");
    assert_eq!(paths.output_json, "/x/output.json");
    assert_eq!(paths.recording_json, "/x/recording.linux.json");
}

#[test]
fn absoluteness_can_come_from_the_caller() {
    assert_eq!(resolve_assets_path_as("C:/app/assets", "D:/abs/a.frag", true), "D:/abs/a.frag");
    assert_eq!(
        resolve_assets_path_as("C:/app/assets", "shaders/a.frag", false),
        "C:/app/assets/shaders/a.frag"
    );
    assert_eq!(resolve_assets_path_as("/app/assets", "/abs/a.frag", false), "/app/assets//abs/a.frag");
    assert_eq!(resolve_assets_path_as("/app/assets/", "a.frag", false), "/app/assets/a.frag");
    assert_eq!(resolve_assets_path_as("", "a.frag", false), "a.frag");
    assert_eq!(join_as("/app", "a.frag", true), "a.frag");
    assert_eq!(
        resolve_assets_path_as("/app/assets", "/abs/a.frag", true),
        resolve_assets_path("/app/assets", "/abs/a.frag")
    );
}
