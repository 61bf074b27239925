use shadecore::logging::LogLevel;
use shadecore::validate::{
    emit_issues, emit_summary, escape_ptr, join_set, validate_params_json, validate_recording_profiles,
    ActiveShape, IssueLevel, ParamsShape, ProfileShape, ShaderShape, ValidationIssue,
};

fn strings(xs: &[&str]) -> Vec<String> {
    xs.iter().map(|s| s.to_string()).collect()
}

fn flat(issues: &[ValidationIssue]) -> Vec<(IssueLevel, String, String, Option<String>)> {
    issues.iter().map(|i| (i.level, i.path.clone(), i.message.clone(), i.hint.clone())).collect()
}

fn warn(path: &str, message: &str, hint: &str) -> (IssueLevel, String, String, Option<String>) {
    (IssueLevel::Warn, path.to_string(), message.to_string(), Some(hint.to_string()))
}

fn error(path: &str, message: &str, hint: &str) -> (IssueLevel, String, String, Option<String>) {
    (IssueLevel::Error, path.to_string(), message.to_string(), Some(hint.to_string()))
}

#[test]
fn findings_are_built() {
    let w = ValidationIssue::warn("p", "m", None);
    assert_eq!((w.level, w.path.as_str(), w.message.as_str(), w.hint), (IssueLevel::Warn, "p", "m", None));
    let e = ValidationIssue::error("q", "n", Some("h".to_string()));
    assert_eq!(
        (e.level, e.path.as_str(), e.message.as_str(), e.hint.as_deref()),
        (IssueLevel::Error, "q", "n", Some("h"))
    );
}

#[test]
fn findings_become_log_lines() {
    let issues = vec![
        ValidationIssue::warn("a.json:/x", "odd", Some("fix it".to_string())),
        ValidationIssue::error("a.json:/y", "bad", None),
    ];
    let lines = emit_issues("CONFIG", &issues);
    assert_eq!(lines.len(), 2);
    assert_eq!(lines[0].level, LogLevel::Warn);
    assert_eq!(lines[0].tag, "CONFIG");
    assert_eq!(lines[0].text, "a.json:/x: odd (hint: fix it)");
    assert_eq!(lines[1].level, LogLevel::Error);
    assert_eq!(lines[1].text, "a.json:/y: bad");
    assert!(emit_issues("CONFIG", &vec![]).is_empty());
}

#[test]
fn summary_counts_by_level() {
    let clean = emit_summary("CONFIG", "params.json", &vec![]);
    assert_eq!(clean.level, LogLevel::Info);
    assert_eq!(clean.tag, "CONFIG");
    assert_eq!(clean.text, "validation: params.json OK (0 issues)");
    let issues = vec![
        ValidationIssue::warn("a", "b", None),
        ValidationIssue::error("a", "b", None),
        ValidationIssue::warn("a", "b", None),
    ];
    let s = emit_summary("CONFIG", "params.json", &issues);
    assert_eq!(s.level, LogLevel::Warn);
    assert_eq!(s.text, "validation: params.json issues found (errors=1 warnings=2)");
}

#[test]
fn pointer_parts_are_escaped() {
    assert_eq!(escape_ptr("shaders/a~b.frag"), "shaders~1a~0b.frag");
    assert_eq!(escape_ptr("~/"), "~0~1");
    assert_eq!(escape_ptr(""), "");
    assert_eq!(escape_ptr("plain"), "plain");
}

#[test]
fn names_are_joined_in_order() {
    assert_eq!(join_set(&strings(&["b", "a", "c", "a"])), "a, b, c");
    assert_eq!(join_set(&strings(&["only"])), "only");
    assert_eq!(join_set(&vec![]), "");
}

#[test]
fn missing_definitions_is_the_only_finding() {
    let shape = ParamsShape { params: None, shader_profiles: None, active_shader_profiles: None };
    assert_eq!(
        flat(&validate_params_json(&shape)),
        vec![error(
            "params.json:/params",
            "missing or non-array 'params'",
            "expected an array like: { \"params\": [ {\"name\": \"u_gain\", ...}, ... ] }"
        )]
    );
}

#[test]
fn clean_configuration_has_no_findings() {
    let shape = ParamsShape {
        params: Some(vec![Some("u_gain".to_string()), Some("u_zoom".to_string())]),
        shader_profiles: Some(vec![ShaderShape {
            shader: "shaders/a.frag".to_string(),
            profiles: Some(vec![
                ProfileShape { name: "default".to_string(), uniforms: Some(strings(&["u_gain"])) },
                ProfileShape { name: "wide".to_string(), uniforms: Some(strings(&["u_zoom", "u_gain"])) },
            ]),
        }]),
        active_shader_profiles: Some(vec![ActiveShape {
            shader: "shaders/a.frag".to_string(),
            profile: "wide".to_string(),
        }]),
    };
    assert!(validate_params_json(&shape).is_empty());
}

#[test]
fn optional_parts_that_are_missing_are_noted() {
    let shape =
        ParamsShape { params: Some(vec![]), shader_profiles: None, active_shader_profiles: None };
    assert_eq!(
        flat(&validate_params_json(&shape)),
        vec![
            warn(
                "params.json:/shader_profiles",
                "missing or non-object 'shader_profiles'",
                "profiles are optional; omit if you don't need per-shader defaults"
            ),
            warn(
                "params.json:/active_shader_profiles",
                "missing or non-object 'active_shader_profiles'",
                "optional; if omitted, ShadeCore falls back to 'default' when available"
            ),
        ]
    );
}

#[test]
fn every_rule_reports_in_order() {
    let shape = ParamsShape {
        params: Some(vec![
            Some("u_gain".to_string()),
            None,
            Some("u_gain".to_string()),
            Some("u_zoom".to_string()),
            Some("u_gain".to_string()),
        ]),
        shader_profiles: Some(vec![
            ShaderShape { shader: "bad".to_string(), profiles: None },
            ShaderShape {
                shader: "shaders/a.frag".to_string(),
                profiles: Some(vec![
                    ProfileShape { name: "lofi".to_string(), uniforms: Some(strings(&["u_gain", "u/x"])) },
                    ProfileShape { name: "hi~fi".to_string(), uniforms: None },
                ]),
            },
        ]),
        active_shader_profiles: Some(vec![
            ActiveShape { shader: "shaders/a.frag".to_string(), profile: "".to_string() },
            ActiveShape { shader: "bad".to_string(), profile: "x".to_string() },
            ActiveShape { shader: "shaders/a.frag".to_string(), profile: "wide".to_string() },
            ActiveShape { shader: "shaders/a.frag".to_string(), profile: "lofi".to_string() },
        ]),
    };
    let want = vec![
        error(
            "params.json:/params/1/name",
            "missing or non-string param name",
            "each entry in /params must include a string field 'name'",
        ),
        error(
            "params.json:/params",
            "duplicate param name 'u_gain'",
            "param names must be unique; duplicates make mappings ambiguous",
        ),
        error(
            "params.json:/params",
            "duplicate param name 'u_gain'",
            "param names must be unique; duplicates make mappings ambiguous",
        ),
        error(
            "params.json:/shader_profiles/bad",
            "shader_profiles entry must be an object of profiles",
            "expected: { \"default\": {\"uniforms\": {...}}, \"lofi\": {...} }",
        ),
        warn(
            "params.json:/shader_profiles/shaders~1a.frag",
            "no 'default' profile found for this shader",
            "recommended to include a 'default' profile for predictable startup",
        ),
        warn(
            "params.json:/shader_profiles/shaders~1a.frag/lofi/uniforms/u~1x",
            "uniform 'u/x' not declared in params.json:/params",
            "add it under /params, or remove it from this profile",
        ),
        warn(
            "params.json:/shader_profiles/shaders~1a.frag/hi~0fi/uniforms",
            "missing or non-object 'uniforms' for this profile",
            "expected: \"uniforms\": { \"u_gain\": 0.5, ... }",
        ),
        warn(
            "params.json:/active_shader_profiles/shaders~1a.frag",
            "active profile name is empty or non-string",
            "set to a valid profile name, e.g. \"default\"",
        ),
        warn(
            "params.json:/active_shader_profiles/bad",
            "active profile 'x' references shader 'bad' with no entry under shader_profiles",
            "either add shader_profiles[shader] or remove this active_shader_profiles entry",
        ),
        warn(
            "params.json:/active_shader_profiles/shaders~1a.frag",
            "active profile 'wide' not found; available: hi~fi, lofi",
            "fix the name, or add that profile under shader_profiles for this shader",
        ),
    ];
    assert_eq!(flat(&validate_params_json(&shape)), want);
}

#[test]
fn recording_profile_link() {
    let names = strings(&["uhd", "1080p"]);
    assert!(validate_recording_profiles("uhd", Some(&names)).is_empty());
    assert_eq!(
        flat(&validate_recording_profiles("uhd", None)),
        vec![error(
            "recording.profiles.json:/profiles",
            "missing or non-object 'profiles'",
            "expected: { \"profiles\": { \"1080p_prores\": {...}, ... } }"
        )]
    );
    assert_eq!(
        flat(&validate_recording_profiles("", Some(&names))),
        vec![warn(
            "recording.json:/active_profile",
            "missing or empty active_profile",
            "set to one of: 1080p, uhd"
        )]
    );
    assert_eq!(
        flat(&validate_recording_profiles("4k", Some(&names))),
        vec![warn("recording.json:/active_profile", "active_profile '4k' not found", "available: 1080p, uhd")]
    );
}
