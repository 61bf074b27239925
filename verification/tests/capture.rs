use shadecore::capture::{
    recording_command, CaptureState, RecCommand, RecHotkeyAction, ReloadGate, Size, SurfaceStep,
};

#[test]
fn first_frame_of_session_reads_nothing() {
    let mut c = CaptureState::new();
    let step = c.frame(640, 360).unwrap();
    assert_eq!(step.surface, SurfaceStep::Create);
    assert_eq!(step.buffer_bytes, 640 * 360 * 4);
    assert_eq!(step.write, 0);
    assert_eq!(step.read, None);
    assert!(c.primed);
    assert_eq!(c.size, Some(Size { w: 640, h: 360 }));
}

#[test]
fn n_frames_forward_n_minus_one() {
    for n in 2..50u32 {
        let mut c = CaptureState::new();
        c.begin_session();
        let mut forwarded = 0;
        let mut last_write = None;
        for _ in 0..n {
            let step = c.frame(1920, 1080).unwrap();
            if let Some(r) = step.read {
                forwarded += 1;
                assert_eq!(Some(r), last_write);
                assert_ne!(r, step.write);
            }
            last_write = Some(step.write);
        }
        assert_eq!(forwarded, n - 1);
    }
}

#[test]
fn buffers_alternate() {
    let mut c = CaptureState::new();
    let writes: Vec<u8> = (0..5).map(|_| c.frame(4, 4).unwrap().write).collect();
    assert_eq!(writes, vec![0, 1, 0, 1, 0]);
}

#[test]
fn resize_replaces_and_starts_over() {
    let mut c = CaptureState::new();
    c.frame(100, 200);
    c.frame(100, 200);
    let step = c.frame(200, 100).unwrap();
    assert_eq!(step.surface, SurfaceStep::Replace);
    assert_eq!(step.read, None);
    assert_eq!(step.write, 0);
    let step = c.frame(200, 100).unwrap();
    assert_eq!(step.surface, SurfaceStep::Keep);
    assert_eq!(step.read, Some(0));
    assert_eq!(step.write, 1);
}

#[test]
fn new_session_starts_unprimed_and_keeps_surface() {
    let mut c = CaptureState::new();
    c.frame(8, 8);
    c.frame(8, 8);
    c.frame(8, 8);
    c.begin_session();
    assert!(!c.primed);
    let step = c.frame(8, 8).unwrap();
    assert_eq!((step.surface, step.write, step.read), (SurfaceStep::Keep, 0, None));
    c.reset();
    assert_eq!(c, CaptureState::new());
    assert_eq!(c.frame(8, 8).unwrap().surface, SurfaceStep::Create);
}

#[test]
fn size_that_cannot_be_captured_is_skipped() {
    let mut c = CaptureState::new();
    assert_eq!(c.frame(0, 10), None);
    assert_eq!(c.frame(10, 0), None);
    assert_eq!(c.frame(0x8000_0000, 10), None);
    assert_eq!(c, CaptureState::new());
    assert_eq!(c.frame(0x7FFF_FFFF, 1).unwrap().buffer_bytes, 0x7FFF_FFFFu64 * 4);
}

#[test]
fn settings_change_waits_for_recording_to_stop() {
    let mut g = ReloadGate::new();
    assert!(!g.poll(false));
    assert!(!g.config_changed(true));
    assert!(g.pending);
    assert!(!g.poll(true));
    assert!(g.pending);
    assert!(g.poll(false));
    assert!(!g.pending);
    assert!(!g.poll(false));
    assert!(g.config_changed(false));
    assert!(!g.pending);
}

#[test]
fn recording_hotkeys() {
    assert_eq!(recording_command(RecHotkeyAction::Toggle, true, true), RecCommand::Stop);
    assert_eq!(recording_command(RecHotkeyAction::Toggle, true, false), RecCommand::Stop);
    assert_eq!(recording_command(RecHotkeyAction::Toggle, false, true), RecCommand::Start);
    assert_eq!(recording_command(RecHotkeyAction::Toggle, false, false), RecCommand::Disabled);
    assert_eq!(recording_command(RecHotkeyAction::Start, true, true), RecCommand::AlreadyRecording);
    assert_eq!(recording_command(RecHotkeyAction::Start, false, true), RecCommand::Start);
    assert_eq!(recording_command(RecHotkeyAction::Start, false, false), RecCommand::Disabled);
    assert_eq!(recording_command(RecHotkeyAction::Stop, true, false), RecCommand::Stop);
    assert_eq!(recording_command(RecHotkeyAction::Stop, false, true), RecCommand::NotRecording);
}
