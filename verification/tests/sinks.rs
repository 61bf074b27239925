use shadecore::pixels::{rgba_to_bgra, vflip_inplace};
use shadecore::sinks::{
    frame_bytes, frame_due, frame_due_ratio, stream_args, NdiCfg, NdiSender, StreamCfg, StreamNotice,
    StreamSender, StreamTarget,
};

#[test]
fn stream_arguments_for_rtsp() {
    let mut cfg = StreamCfg::default();
    cfg.enabled = true;
    let args = stream_args(&cfg, 1280, 720).unwrap();
    let want = [
        "-hide_banner", "-loglevel", "warning", "-f", "rawvideo", "-pix_fmt", "rgba", "-s", "1280x720",
        "-r", "60", "-i", "-", "-vf", "vflip", "-an", "-c:v", "libx264", "-preset", "veryfast", "-tune",
        "zerolatency", "-pix_fmt", "yuv420p", "-g", "120", "-b:v", "8000k", "-f", "rtsp",
        "-rtsp_transport", "tcp", "-muxdelay", "0.1", "rtsp://127.0.0.1:8554/shadecore",
    ];
    assert_eq!(args, want);
}

#[test]
fn stream_arguments_for_rtmp() {
    let mut cfg = StreamCfg::default();
    cfg.target = StreamTarget::Rtmp;
    cfg.vflip = false;
    cfg.fps = 30;
    cfg.gop = 0;
    cfg.bitrate_kbps = 2500;
    assert_eq!(stream_args(&cfg, 4, 2), None);
    cfg.rtmp_url = Some("rtmp://host/live/key".to_string());
    let args = stream_args(&cfg, -4, 0).unwrap();
    let want = [
        "-hide_banner", "-loglevel", "warning", "-f", "rawvideo", "-pix_fmt", "rgba", "-s", "-4x0", "-r",
        "30", "-i", "-", "-an", "-c:v", "libx264", "-preset", "veryfast", "-tune", "zerolatency",
        "-pix_fmt", "yuv420p", "-g", "0", "-b:v", "2500k", "-f", "flv", "rtmp://host/live/key",
    ];
    assert_eq!(args, want);
}

#[test]
fn frame_size_in_bytes() {
    assert_eq!(frame_bytes(1920, 1080), 1920 * 1080 * 4);
    assert_eq!(frame_bytes(0, 10), 40);
    assert_eq!(frame_bytes(-5, -5), 4);
    assert_eq!(frame_bytes(i32::MAX, i32::MAX), (i32::MAX as u64) * (i32::MAX as u64) * 4);
}

#[test]
fn frame_gate() {
    assert!(!frame_due(16_666_666, 60));
    assert!(frame_due(16_666_667, 60));
    assert!(frame_due(1_000_000_000, 0));
    assert!(!frame_due(999_999_999, 0));
    assert!(frame_due(u64::MAX, u32::MAX));
    assert!(frame_due_ratio(33_366_667, 30000, 1001));
    assert!(!frame_due_ratio(33_366_666, 30000, 1001));
    assert!(!frame_due_ratio(999_999_999, 1, 2));
    assert!(frame_due_ratio(1_000_000_000, 1, 2));
    assert!(frame_due_ratio(1_000_000_000, -3, -7));
}

#[test]
fn stream_worker_lifecycle() {
    let mut cfg = StreamCfg::default();
    cfg.enabled = true;
    cfg.ffmpeg_path = Some("/opt/ffmpeg".to_string());
    let mut sender = StreamSender::new(cfg);
    assert!(sender.is_enabled());
    assert!(!sender.is_running());
    let plan = sender.ensure_running(640, 480);
    assert!(!plan.stop);
    assert_eq!(plan.resize, Some(640 * 480 * 4));
    assert_eq!(plan.notice, Some(StreamNotice::PushesToServer));
    let start = plan.start.unwrap();
    assert_eq!(start.program, "/opt/ffmpeg");
    assert_eq!(start.args[8], "640x480");
    assert!(sender.is_running());
    let plan = sender.ensure_running(640, 480);
    assert!(!plan.stop && plan.start.is_none() && plan.resize.is_none() && plan.notice.is_none());
    let plan = sender.ensure_running(800, 600);
    assert!(plan.stop);
    assert_eq!(plan.notice, None);
    assert_eq!(plan.start.unwrap().args[8], "800x600");
    assert!(sender.stop());
    assert!(!sender.stop());
    let plan = sender.ensure_running(800, 600);
    assert!(!plan.stop && plan.start.is_some());
}

#[test]
fn stream_without_destination_does_not_start() {
    let mut cfg = StreamCfg::default();
    cfg.enabled = true;
    cfg.target = StreamTarget::Rtmp;
    let mut sender = StreamSender::new(cfg);
    let plan = sender.ensure_running(10, 10);
    assert!(plan.start.is_none());
    assert_eq!(plan.notice, Some(StreamNotice::MissingRtmpUrl));
    assert_eq!(plan.resize, Some(400));
    assert!(!sender.is_running());
    let (plan, capture) = sender.send_current_fbo_frame(10, 10, u64::MAX);
    assert!(plan.start.is_none() && plan.notice.is_none());
    assert!(!capture);
}

#[test]
fn disabled_stream_does_nothing_per_frame_and_stops_when_asked() {
    let mut sender = StreamSender::new(StreamCfg::default());
    let (plan, capture) = sender.send_current_fbo_frame(10, 10, u64::MAX);
    assert!(!plan.stop && plan.start.is_none() && plan.resize.is_none() && !capture);
    let plan = sender.ensure_running(10, 10);
    assert!(!plan.stop && plan.start.is_none());
}

#[test]
fn stream_frames_are_throttled() {
    let mut cfg = StreamCfg::default();
    cfg.enabled = true;
    cfg.fps = 10;
    let mut sender = StreamSender::new(cfg);
    let (plan, capture) = sender.send_current_fbo_frame(10, 10, 99_999_999);
    assert!(plan.start.is_some());
    assert!(!capture);
    let (plan, capture) = sender.send_current_fbo_frame(10, 10, 100_000_000);
    assert!(plan.start.is_none());
    assert!(capture);
}

#[test]
fn shared_frame_worker_lifecycle() {
    let mut cfg = NdiCfg::default();
    assert!(!NdiSender::new(NdiCfg::default()).is_enabled());
    cfg.enabled = true;
    cfg.fps_n = 0;
    cfg.fps_d = -1;
    cfg.groups = Some("stage".to_string());
    let mut sender = NdiSender::new(cfg);
    assert!(sender.flips());
    let plan = sender.ensure_running(64, 32);
    let start = plan.start.unwrap();
    assert_eq!(start.name, "shadecore");
    assert_eq!(start.groups.as_deref(), Some("stage"));
    assert_eq!((start.fps_n, start.fps_d, start.clock_video), (1, 1, true));
    assert_eq!(plan.resize, Some(64 * 32 * 4));
    assert!(!plan.stop);
    assert!(sender.frame_dropped());
    assert!(!sender.frame_dropped());
    let (plan, capture) = sender.send_current_fbo_frame(64, 32, 1_000_000_000);
    assert!(plan.start.is_none() && capture);
    let (plan, capture) = sender.send_current_fbo_frame(32, 64, 1);
    assert!(plan.stop && plan.start.is_some() && !capture);
    assert!(sender.frame_dropped());
    assert!(sender.stop());
    let mut off = NdiSender::new(NdiCfg::default());
    let (plan, capture) = off.send_current_fbo_frame(1, 1, u64::MAX);
    assert!(!plan.stop && plan.start.is_none() && !capture);
}

#[test]
fn red_and_blue_are_exchanged() {
    let src: Vec<u8> = (0..16).collect();
    let mut dst = vec![0xAAu8; 20];
    rgba_to_bgra(&src, &mut dst, 2, 2);
    assert_eq!(&dst[..16], &[2, 1, 0, 3, 6, 5, 4, 7, 10, 9, 8, 11, 14, 13, 12, 15]);
    assert_eq!(&dst[16..], &[0xAA; 4]);
    let mut one = vec![0u8; 4];
    rgba_to_bgra(&vec![1, 2, 3, 4], &mut one, 0, -1);
    assert_eq!(one, vec![3, 2, 1, 4]);
}

#[test]
fn rows_are_turned_upside_down() {
    let mut buf: Vec<u8> = (0..26).collect();
    vflip_inplace(&mut buf, 2, 3);
    let want: Vec<u8> = vec![
        16, 17, 18, 19, 20, 21, 22, 23, 8, 9, 10, 11, 12, 13, 14, 15, 0, 1, 2, 3, 4, 5, 6, 7, 24, 25,
    ];
    assert_eq!(buf, want);
    let mut single: Vec<u8> = (0..8).collect();
    vflip_inplace(&mut single, 2, 1);
    assert_eq!(single, (0..8).collect::<Vec<u8>>());
    let mut even: Vec<u8> = (0..8).collect();
    vflip_inplace(&mut even, 1, 2);
    assert_eq!(even, vec![4, 5, 6, 7, 0, 1, 2, 3]);
}

#[test]
fn stream_worker_is_up_only_with_a_command_line() {
    let mut cfg = StreamCfg::default();
    cfg.enabled = true;
    cfg.target = StreamTarget::Rtmp;
    let mut sender = StreamSender::new(cfg.clone());
    for (w, h) in [(10, 10), (10, 10), (64, 48)] {
        let (plan, _) = sender.send_current_fbo_frame(w, h, 0);
        assert_eq!(sender.is_running(), stream_args(&cfg, w, h).is_some());
        assert_eq!(plan.start.is_some(), sender.is_running());
    }
    cfg.rtmp_url = Some("rtmp://host/live".to_string());
    let mut sender = StreamSender::new(cfg.clone());
    for (w, h) in [(10, 10), (10, 10), (64, 48)] {
        sender.ensure_running(w, h);
        assert!(sender.is_running());
        assert!(stream_args(&cfg, w, h).is_some());
    }
    sender.stop();
    assert!(!sender.is_running());
}
