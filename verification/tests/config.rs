use shadecore::assets::AssetsRoot;
use shadecore::config::{
    default_version, load_render_selection, load_render_selection_strict, validate_top_level_object,
    EngineError, RenderJson,
};
use shadecore::names::NameMap;

fn root() -> AssetsRoot {
    AssetsRoot::at("/app/assets".to_string())
}

fn bare() -> RenderJson {
    RenderJson {
        version: default_version(),
        frag: None,
        frag_variants: None,
        active_frag: None,
        present_frag: None,
        frag_profile_map: None,
    }
}

#[test]
fn no_render_configuration_selects_defaults() {
    let sel = load_render_selection(&root(), None).ok().unwrap();
    assert_eq!(sel.frag_path, "/app/assets/shaders/default.frag");
    assert_eq!(sel.present_frag_path, "/app/assets/shaders/present.frag");
    assert_eq!(sel.frag_variants, vec!["/app/assets/shaders/default.frag"]);
    assert_eq!(sel.frag_idx, 0);
    assert_eq!(sel.frag_profile_map.len(), 0);
    assert!(load_render_selection_strict(&root(), None).is_ok());
}

#[test]
fn empty_render_configuration_selects_defaults() {
    let sel = load_render_selection(&root(), Some(&bare())).ok().unwrap();
    assert_eq!(sel.frag_path, "/app/assets/shaders/default.frag");
    assert_eq!(sel.present_frag_path, "/app/assets/shaders/present.frag");
    assert_eq!(sel.frag_variants.len(), 1);
    let mut rj = bare();
    rj.frag_variants = Some(vec![]);
    rj.frag = Some("shaders/one.frag".to_string());
    rj.active_frag = Some("shaders/one.frag".to_string());
    let sel = load_render_selection(&root(), Some(&rj)).ok().unwrap();
    assert_eq!(sel.frag_variants, vec!["/app/assets/shaders/one.frag"]);
    assert_eq!(sel.frag_idx, 0);
}

#[test]
fn variants_and_active_shader() {
    let mut rj = bare();
    rj.frag = Some("ignored.frag".to_string());
    rj.frag_variants = Some(vec!["shaders/a.frag".to_string(), "/abs/b.frag".to_string(), "shaders/a.frag".to_string()]);
    rj.active_frag = Some("/abs/b.frag".to_string());
    rj.present_frag = Some("shaders/show.frag".to_string());
    let mut map = NameMap::new();
    map.insert("shaders/a.frag".to_string(), "lofi".to_string());
    map.insert("/abs/b.frag".to_string(), "crunch".to_string());
    rj.frag_profile_map = Some(map);
    let sel = load_render_selection(&root(), Some(&rj)).ok().unwrap();
    assert_eq!(sel.frag_variants, vec!["/app/assets/shaders/a.frag", "/abs/b.frag", "/app/assets/shaders/a.frag"]);
    assert_eq!(sel.frag_idx, 1);
    assert_eq!(sel.frag_path, "/abs/b.frag");
    assert_eq!(sel.present_frag_path, "/app/assets/shaders/show.frag");
    assert_eq!(sel.frag_profile_map.get("/app/assets/shaders/a.frag").map(|s| s.as_str()), Some("lofi"));
    assert_eq!(sel.frag_profile_map.get("/abs/b.frag").map(|s| s.as_str()), Some("crunch"));
    rj.active_frag = Some("shaders/none.frag".to_string());
    assert_eq!(load_render_selection(&root(), Some(&rj)).ok().unwrap().frag_idx, 0);
    rj.active_frag = Some("shaders/a.frag".to_string());
    assert_eq!(load_render_selection(&root(), Some(&rj)).ok().unwrap().frag_idx, 0);
}

#[test]
fn strict_reading_rejects_other_versions() {
    let mut rj = bare();
    rj.version = 2;
    assert!(load_render_selection(&root(), Some(&rj)).is_ok());
    match load_render_selection_strict(&root(), Some(&rj)) {
        Err(EngineError::InvalidConfig { path, msg }) => {
            assert_eq!(path, "/app/assets/render.json");
            assert_eq!(msg, "unsupported render.json version 2 (expected 1)");
        }
        _ => panic!("a version other than one is rejected"),
    }
    rj.version = 1;
    assert!(load_render_selection_strict(&root(), Some(&rj)).is_ok());
}

#[test]
fn errors_in_words() {
    let e = EngineError::AssetsNotFound { start_dir: "/x".to_string() };
    assert_eq!(e.message(), "Could not locate assets/ starting from /x");
    let e = EngineError::Io { path: "/p".to_string(), source: "denied".to_string() };
    assert_eq!(e.message(), "I/O error for /p: denied");
    let e = EngineError::Json { path: "/p".to_string(), source: "eof".to_string() };
    assert_eq!(e.message(), "JSON parse error for /p: eof");
    let e = EngineError::JsonValue { path: "/p".to_string(), source: "shape".to_string() };
    assert_eq!(e.message(), "JSON deserialize error for /p: shape");
    let e = EngineError::InvalidConfig { path: "/p".to_string(), msg: "no".to_string() };
    assert_eq!(e.message(), "Invalid config /p: no");
}

#[test]
fn top_level_must_be_an_object() {
    assert!(validate_top_level_object("params.json", "/p", true).is_ok());
    match validate_top_level_object("params.json", "/p", false) {
        Err(e) => assert_eq!(e.message(), "Invalid config /p: params.json must be a JSON object"),
        Ok(_) => panic!("anything but an object is rejected"),
    }
}
