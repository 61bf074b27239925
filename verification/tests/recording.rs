use shadecore::names::NameMap;
use shadecore::recording::{
    default_ffmpeg, default_fps, default_h264_crf, default_h264_preset, default_height, default_out_dir,
    default_pix_fmt_out, default_prores_profile, default_start_keys, default_stop_keys,
    default_toggle_keys, default_vflip, default_width, is_controller, make_filename, record_args,
    resolve_recording_config, with_profile, Codec, Container, ProfilesSource, Recorder,
    RecorderError, RecordingCfg, RecordingController, RecordingHotkeys, RecordingNotice,
    RecordingProfile,
};

fn no_overrides() -> RecordingProfile {
    RecordingProfile {
        out_dir: None,
        container: None,
        codec: None,
        fps: None,
        width: None,
        height: None,
        ffmpeg_path: None,
        h264_crf: None,
        h264_preset: None,
        pix_fmt_out: None,
        prores_profile: None,
        vflip: None,
    }
}

#[test]
fn recording_defaults() {
    let cfg = RecordingCfg::default();
    assert!(!cfg.enabled);
    assert!(cfg.toggle_keys.is_empty());
    assert_eq!(cfg.start_keys, vec!["KeyR"]);
    assert_eq!(cfg.stop_keys, vec!["KeyS"]);
    assert_eq!(cfg.out_dir, "captures");
    assert_eq!(cfg.ffmpeg_path, "ffmpeg");
    assert_eq!((cfg.fps, cfg.width, cfg.height), (60, 1920, 1080));
    assert_eq!((cfg.container, cfg.codec), (Container::Mp4, Codec::H264));
    assert_eq!((cfg.h264_crf, cfg.prores_profile, cfg.vflip), (18, 3, true));
    assert_eq!(cfg.h264_preset, "veryfast");
    assert_eq!(cfg.pix_fmt_out, "yuv420p");
    assert_eq!(Container::default(), Container::Mp4);
    assert_eq!(Codec::default(), Codec::H264);
    assert!(default_toggle_keys().is_empty());
    assert_eq!(default_start_keys(), vec!["KeyR"]);
    assert_eq!(default_stop_keys(), vec!["KeyS"]);
    assert_eq!(default_out_dir(), "captures");
    assert_eq!(default_ffmpeg(), "ffmpeg");
    assert_eq!((default_fps(), default_width(), default_height()), (60, 1920, 1080));
    assert_eq!((default_h264_crf(), default_prores_profile(), default_vflip()), (18, 3, true));
    assert_eq!(default_h264_preset(), "veryfast");
    assert_eq!(default_pix_fmt_out(), "yuv420p");
}

#[test]
fn file_name_carries_time_and_container() {
    assert_eq!(make_filename(Container::Mp4, 1700000000), "shadecore_capture_1700000000.mp4");
    assert_eq!(make_filename(Container::Mov, 0), "shadecore_capture_0.mov");
    assert_eq!(
        make_filename(Container::Mov, u64::MAX),
        "shadecore_capture_18446744073709551615.mov"
    );
}

#[test]
fn encoder_arguments_for_h264() {
    let cfg = RecordingCfg::default();
    let args = record_args(&cfg, "/out/a.mp4").ok().unwrap();
    let want = [
        "-y", "-f", "rawvideo", "-pix_fmt", "rgba", "-video_size", "1920x1080", "-r", "60", "-i",
        "pipe:0", "-vf", "vflip", "-an", "-c:v", "libx264", "-preset", "veryfast", "-crf", "18",
        "-pix_fmt", "yuv420p", "/out/a.mp4",
    ];
    assert_eq!(args, want);
    let mut mov = RecordingCfg::default();
    mov.container = Container::Mov;
    mov.vflip = false;
    mov.width = 0;
    mov.height = 0;
    mov.fps = 0;
    let args = record_args(&mov, "b.mov").ok().unwrap();
    let want = [
        "-y", "-f", "rawvideo", "-pix_fmt", "rgba", "-video_size", "1x1", "-r", "1", "-i", "pipe:0",
        "-an", "-c:v", "libx264", "-preset", "veryfast", "-crf", "18", "-pix_fmt", "yuv420p", "b.mov",
    ];
    assert_eq!(args, want);
}

#[test]
fn encoder_arguments_for_prores() {
    let mut cfg = RecordingCfg::default();
    cfg.container = Container::Mov;
    cfg.codec = Codec::Prores;
    cfg.prores_profile = 2;
    let args = record_args(&cfg, "c.mov").ok().unwrap();
    let want = [
        "-y", "-f", "rawvideo", "-pix_fmt", "rgba", "-video_size", "1920x1080", "-r", "60", "-i",
        "pipe:0", "-vf", "vflip", "-an", "-c:v", "prores_ks", "-profile:v", "2", "c.mov",
    ];
    assert_eq!(args, want);
    cfg.container = Container::Mp4;
    assert_eq!(record_args(&cfg, "c.mp4").err(), Some(RecorderError::UnsupportedCombination));
}

#[test]
fn recorder_start_errors() {
    let rec = Recorder::new(RecordingCfg::default());
    assert!(!rec.is_enabled());
    assert_eq!(rec.start("/assets", 1).err(), Some(RecorderError::Disabled));
    let mut cfg = RecordingCfg::default();
    cfg.enabled = true;
    cfg.codec = Codec::Prores;
    let mut rec = Recorder::new(cfg);
    assert_eq!(rec.start("/assets", 1).err(), Some(RecorderError::UnsupportedCombination));
    rec.started();
    assert_eq!(rec.start("/assets", 1).err(), Some(RecorderError::AlreadyStarted));
    assert_eq!(RecorderError::Disabled.message(), "Recording is disabled in recording.json");
    assert_eq!(RecorderError::AlreadyStarted.message(), "Recorder already started");
    assert_eq!(
        RecorderError::UnsupportedCombination.message(),
        "Unsupported container/codec combination"
    );
}

#[test]
fn recorder_plans_start_without_changing_state() {
    let mut cfg = RecordingCfg::default();
    cfg.enabled = true;
    cfg.ffmpeg_path = "/usr/bin/ffmpeg".to_string();
    let mut rec = Recorder::new(cfg);
    let plan = rec.start("/assets", 1700000000).ok().unwrap();
    assert_eq!(plan.out_dir, "/assets/captures");
    assert_eq!(plan.out_path, "/assets/captures/shadecore_capture_1700000000.mp4");
    assert_eq!(plan.program, "/usr/bin/ffmpeg");
    assert_eq!(plan.args.last().unwrap(), "/assets/captures/shadecore_capture_1700000000.mp4");
    assert_eq!(plan.args.len(), 23);
    assert!(!rec.is_recording());
    assert_eq!(rec.try_send_frame_owned(vec![1, 2, 3]), None);
    assert_eq!(rec.try_send_frame(), None);
    rec.started();
    assert!(rec.is_recording());
    assert_eq!(rec.try_send_frame_owned(vec![1, 2, 3]), Some(vec![1, 2, 3]));
    assert!(rec.stop());
    assert!(!rec.is_recording());
    assert!(!rec.stop());
}

#[test]
fn absolute_output_directory_is_kept() {
    let mut cfg = RecordingCfg::default();
    cfg.enabled = true;
    cfg.out_dir = "/var/rec/".to_string();
    cfg.container = Container::Mov;
    let rec = Recorder::new(cfg);
    let plan = rec.start("/assets", 5).ok().unwrap();
    assert_eq!(plan.out_dir, "/var/rec/");
    assert_eq!(plan.out_path, "/var/rec/shadecore_capture_5.mov");
}

#[test]
fn recorder_buffer() {
    let mut cfg = RecordingCfg::default();
    cfg.width = 3;
    cfg.height = 0;
    let mut rec = Recorder::new(cfg);
    assert!(rec.ensure_buf_size());
    assert_eq!(rec.buf_mut().len(), 12);
    rec.buf_mut()[0] = 9;
    rec.started();
    let frame = rec.try_send_frame().unwrap();
    assert_eq!(frame.len(), 12);
    assert_eq!(frame[0], 9);
    let mut other = RecordingCfg::default();
    other.width = 2;
    other.height = 2;
    rec.set_cfg(other);
    assert_eq!(rec.cfg().width, 2);
    assert!(rec.is_recording());
    assert_eq!(rec.buf_mut().len(), 16);
    assert_eq!(rec.buf_mut()[0], 0);
}

#[test]
fn profile_overrides_what_it_sets() {
    let mut p = no_overrides();
    p.width = Some(1280);
    p.codec = Some(Codec::Prores);
    p.out_dir = Some("takes".to_string());
    p.vflip = Some(false);
    let mut base = RecordingCfg::default();
    base.enabled = true;
    let cfg = with_profile(base, &p);
    assert!(cfg.enabled);
    assert_eq!((cfg.width, cfg.height, cfg.fps), (1280, 1080, 60));
    assert_eq!((cfg.container, cfg.codec), (Container::Mp4, Codec::Prores));
    assert_eq!(cfg.out_dir, "takes");
    assert_eq!(cfg.ffmpeg_path, "ffmpeg");
    assert!(!cfg.vflip);
    let all = RecordingProfile {
        out_dir: Some("o".to_string()),
        container: Some(Container::Mov),
        codec: Some(Codec::Prores),
        fps: Some(24),
        width: Some(1),
        height: Some(2),
        ffmpeg_path: Some("ff".to_string()),
        h264_crf: Some(30),
        h264_preset: Some("slow".to_string()),
        pix_fmt_out: Some("yuv444p".to_string()),
        prores_profile: Some(1),
        vflip: Some(false),
    };
    let cfg = with_profile(RecordingCfg::default(), &all);
    assert_eq!((cfg.fps, cfg.width, cfg.height, cfg.h264_crf, cfg.prores_profile), (24, 1, 2, 30, 1));
    assert_eq!((cfg.ffmpeg_path.as_str(), cfg.h264_preset.as_str(), cfg.pix_fmt_out.as_str()), ("ff", "slow", "yuv444p"));
    assert_eq!(cfg.start_keys, vec!["KeyR"]);
}

fn controller(active: Option<&str>, start: &[&str]) -> RecordingController {
    RecordingController {
        enabled: true,
        active_profile: active.map(|s| s.to_string()),
        hotkeys: RecordingHotkeys {
            toggle: vec![],
            start: start.iter().map(|s| s.to_string()).collect(),
            stop: vec![],
        },
    }
}

fn profiles() -> NameMap<RecordingProfile> {
    let mut m = NameMap::new();
    let mut p = no_overrides();
    p.width = Some(3840);
    p.height = Some(2160);
    m.insert("uhd".to_string(), p);
    m
}

#[test]
fn controller_form_applies_active_profile() {
    let (cfg, notice) =
        resolve_recording_config(Some(controller(Some("uhd"), &["KeyT"])), ProfilesSource::Loaded(profiles()), None);
    assert_eq!(notice, RecordingNotice::ProfileApplied);
    assert!(cfg.enabled);
    assert_eq!((cfg.width, cfg.height, cfg.fps), (3840, 2160, 60));
    assert_eq!(cfg.start_keys, vec!["KeyT"]);
    assert!(cfg.stop_keys.is_empty());
}

#[test]
fn controller_form_without_usable_profile_keeps_defaults() {
    let (cfg, notice) =
        resolve_recording_config(Some(controller(Some("hd"), &[])), ProfilesSource::Loaded(profiles()), None);
    assert_eq!(notice, RecordingNotice::ProfileNotFound);
    assert_eq!((cfg.width, cfg.height), (1920, 1080));
    assert!(cfg.start_keys.is_empty());
    let (_, notice) = resolve_recording_config(Some(controller(Some("uhd"), &[])), ProfilesSource::Missing, None);
    assert_eq!(notice, RecordingNotice::ProfilesMissing);
    let (_, notice) =
        resolve_recording_config(Some(controller(Some("uhd"), &[])), ProfilesSource::Unparseable, None);
    assert_eq!(notice, RecordingNotice::ProfilesUnparseable);
    let (cfg, notice) =
        resolve_recording_config(Some(controller(None, &["KeyT"])), ProfilesSource::Loaded(profiles()), None);
    assert_eq!(notice, RecordingNotice::Quiet);
    assert_eq!(cfg.width, 1920);
}

#[test]
fn plain_form_is_used_when_controller_names_nothing() {
    let mut legacy = RecordingCfg::default();
    legacy.width = 640;
    let (cfg, notice) =
        resolve_recording_config(Some(controller(None, &[])), ProfilesSource::Missing, Some(legacy));
    assert_eq!((cfg.width, notice), (640, RecordingNotice::Quiet));
    let (cfg, notice) = resolve_recording_config(None, ProfilesSource::Missing, None);
    assert_eq!((cfg.width, notice), (1920, RecordingNotice::SettingsUnparseable));
    assert!(!cfg.enabled);
}

#[test]
fn controller_form_is_in_use_when_it_names_a_profile_or_a_key() {
    assert!(!is_controller(&controller(None, &[])));
    assert!(is_controller(&controller(Some("hq"), &[])));
    assert!(is_controller(&controller(Some(""), &[])));
    assert!(is_controller(&controller(None, &["F9"])));
    let mut c = controller(None, &[]);
    c.hotkeys.stop = vec!["F10".to_string()];
    assert!(is_controller(&c));
    let mut c = controller(None, &[]);
    c.hotkeys.toggle = vec!["R".to_string()];
    assert!(is_controller(&c));
    let mut c = controller(None, &[]);
    c.enabled = false;
    assert!(!is_controller(&c));
}
