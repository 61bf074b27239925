use shadecore::assets::Platform;
use shadecore::output::{default_output_mode, Frame, Notice, OutputMode, Router, RouterAction, SinkPolicy};
use shadecore::output_config::{
    default_output_config, load_output_config, platform_default_mode, sink_name, sink_policy, window_title,
};

fn all_on() -> SinkPolicy {
    SinkPolicy {
        syphon_enabled: true,
        syphon_available: true,
        spout_enabled: true,
        spout_available: true,
        stream_enabled: true,
        stream_available: true,
        ndi_enabled: true,
        ndi_available: true,
    }
}

fn frame() -> Frame {
    Frame { texture: 42, width: 1920, height: 1080 }
}

#[test]
fn texture_mode_is_inert() {
    let mut r = Router::new(default_output_mode(), all_on());
    assert_eq!(r.mode, OutputMode::Texture);
    assert_eq!(r.frame(frame()), RouterAction::Idle);
    assert_eq!(r.live, None);
}

#[test]
fn shared_texture_sink_is_constructed_on_first_frame() {
    let mut r = Router::new(OutputMode::Syphon, all_on());
    assert_eq!(r.frame(frame()), RouterAction::Construct(OutputMode::Syphon));
    assert_eq!(r.live, None);
    assert_eq!(r.constructed(frame(), true), RouterAction::Publish(OutputMode::Syphon, frame()));
    assert_eq!(r.live, Some(OutputMode::Syphon));
    assert_eq!(r.frame(frame()), RouterAction::Publish(OutputMode::Syphon, frame()));
}

#[test]
fn failed_construction_warns_once_and_retries() {
    let mut r = Router::new(OutputMode::Spout, all_on());
    assert_eq!(r.frame(frame()), RouterAction::Construct(OutputMode::Spout));
    assert_eq!(r.constructed(frame(), false), RouterAction::Warn(Notice::InitFailed(OutputMode::Spout)));
    assert_eq!(r.frame(frame()), RouterAction::Construct(OutputMode::Spout));
    assert_eq!(r.constructed(frame(), false), RouterAction::Idle);
    assert_eq!(r.live, None);
    assert_eq!(r.constructed(frame(), true), RouterAction::Publish(OutputMode::Spout, frame()));
    assert_eq!(r.send_failed(), RouterAction::Idle);
}

#[test]
fn unavailable_or_disabled_sink_degrades_with_one_notice() {
    let mut policy = all_on();
    policy.spout_available = false;
    policy.stream_enabled = false;
    let mut r = Router::new(OutputMode::Spout, policy);
    assert_eq!(r.frame(frame()), RouterAction::Warn(Notice::Unavailable(OutputMode::Spout)));
    assert_eq!(r.frame(frame()), RouterAction::Idle);
    assert_eq!(r.switch_mode(OutputMode::Stream), None);
    assert_eq!(r.frame(frame()), RouterAction::Warn(Notice::Disabled(OutputMode::Stream)));
    assert_eq!(r.frame(frame()), RouterAction::Idle);
    assert_eq!(r.switch_mode(OutputMode::Spout), None);
    assert_eq!(r.frame(frame()), RouterAction::Warn(Notice::Unavailable(OutputMode::Spout)));
    assert_eq!(r.live, None);
}

#[test]
fn leaving_a_live_sink_stops_it() {
    let mut r = Router::new(OutputMode::Stream, all_on());
    assert_eq!(r.frame(frame()), RouterAction::Publish(OutputMode::Stream, frame()));
    assert_eq!(r.live, Some(OutputMode::Stream));
    assert_eq!(r.switch_mode(OutputMode::Stream), None);
    assert_eq!(r.live, Some(OutputMode::Stream));
    assert_eq!(r.switch_mode(OutputMode::Ndi), Some(OutputMode::Stream));
    assert_eq!(r.mode, OutputMode::Ndi);
    assert_eq!(r.live, None);
    assert_eq!(r.frame(frame()), RouterAction::Publish(OutputMode::Ndi, frame()));
    assert_eq!(r.switch_mode(OutputMode::Texture), Some(OutputMode::Ndi));
    assert_eq!(r.live, None);
    assert_eq!(r.switch_mode(OutputMode::Syphon), None);
}

#[test]
fn send_failure_is_reported_once() {
    let mut r = Router::new(OutputMode::Spout, all_on());
    r.frame(frame());
    r.constructed(frame(), true);
    assert_eq!(r.send_failed(), RouterAction::Warn(Notice::SendFailed(OutputMode::Spout)));
    assert_eq!(r.send_failed(), RouterAction::Idle);
}

#[test]
fn unexpected_construction_outcome_is_ignored() {
    let mut r = Router::new(OutputMode::Texture, all_on());
    assert_eq!(r.constructed(frame(), true), RouterAction::Idle);
    assert_eq!(r.live, None);
    let mut r = Router::new(OutputMode::Stream, all_on());
    assert_eq!(r.constructed(frame(), true), RouterAction::Idle);
    assert_eq!(r.live, None);
}

#[test]
fn platform_defaults() {
    assert_eq!(platform_default_mode(Platform::Windows, false), OutputMode::Spout);
    assert_eq!(platform_default_mode(Platform::Macos, true), OutputMode::Syphon);
    assert_eq!(platform_default_mode(Platform::Macos, false), OutputMode::Texture);
    assert_eq!(platform_default_mode(Platform::Linux, true), OutputMode::Texture);
    assert_eq!(platform_default_mode(Platform::Other, false), OutputMode::Texture);
}

#[test]
fn default_output_configuration() {
    let cfg = default_output_config(OutputMode::Spout);
    assert_eq!(cfg.output_mode, OutputMode::Spout);
    assert!(cfg.syphon.enabled);
    assert!(!cfg.spout.enabled && cfg.spout.invert);
    assert!(!cfg.stream.enabled);
    assert_eq!(cfg.stream.rtsp_url, "rtsp://127.0.0.1:8554/shadecore");
    assert_eq!((cfg.stream.fps, cfg.stream.bitrate_kbps, cfg.stream.gop), (60, 8000, 120));
    assert_eq!((cfg.ndi.fps_n, cfg.ndi.fps_d, cfg.ndi.clock_video), (60, 1, true));
    assert_eq!(cfg.hotkeys.ndi, vec!["Digit6", "Numpad6"]);
    assert_eq!(cfg.preview.hotkeys.pixel, vec!["Digit0", "Numpad0"]);
    assert!(cfg.preview.enabled);
    let kept = load_output_config(Some(default_output_config(OutputMode::Ndi)), OutputMode::Texture);
    assert_eq!(kept.output_mode, OutputMode::Ndi);
    assert_eq!(load_output_config(None, OutputMode::Stream).output_mode, OutputMode::Stream);
}

#[test]
fn policy_follows_configuration_and_build() {
    let mut cfg = default_output_config(OutputMode::Texture);
    cfg.stream.enabled = true;
    let p = sink_policy(&cfg, Platform::Linux, true, false);
    assert!(p.syphon_enabled && !p.syphon_available);
    assert!(!p.spout_enabled && !p.spout_available);
    assert!(p.stream_enabled && p.stream_available);
    assert!(!p.ndi_enabled && !p.ndi_available);
    assert!(sink_policy(&cfg, Platform::Macos, true, true).syphon_available);
    assert!(!sink_policy(&cfg, Platform::Macos, false, true).syphon_available);
    assert!(sink_policy(&cfg, Platform::Windows, false, true).spout_available);
    assert!(sink_policy(&cfg, Platform::Windows, false, true).ndi_available);
}

#[test]
fn names_and_title() {
    assert_eq!(sink_name(&None), "shadecore");
    assert_eq!(sink_name(&Some("stage".to_string())), "stage");
    assert_eq!(
        window_title(OutputMode::Ndi),
        "shadecore - output: Ndi (press 1=Texture, 2=Syphon, 3=Spout, 4=Stream, 6=NDI)"
    );
}
