//! The sinks that run a worker of their own: the encoded network stream and
//! the shared-frame sender. Each is a small state machine that decides when
//! its worker is stopped, started or left alone, what the encoder is
//! started with, and whether a frame is due.

use vstd::prelude::*;
use vstd::string::*;
use crate::text::{
    clone_option, decimal_string, push_signed_decimal, spec_decimal, spec_signed_decimal, views,
};

verus! {

/// Where the stream is pushed.
#[derive(Clone, Copy, PartialEq, Eq, Structural, Debug)]
pub enum StreamTarget {
    Rtsp,
    Rtmp,
}

/// Settings of the stream sink.
#[derive(Debug)]
pub struct StreamCfg {
    pub enabled: bool,
    pub target: StreamTarget,
    pub rtsp_url: String,
    pub rtmp_url: Option<String>,
    pub fps: u32,
    pub bitrate_kbps: u32,
    pub gop: u32,
    pub vflip: bool,
    pub ffmpeg_path: Option<String>,
}

/// The stream target used when none is configured.
pub fn default_stream_target() -> (r: StreamTarget)
    ensures
        r == StreamTarget::Rtsp,
{
    StreamTarget::Rtsp
}

/// The RTSP address used when none is configured.
pub fn default_rtsp_url() -> (r: String)
    ensures
        r@ == "rtsp://127.0.0.1:8554/shadecore"@,
{
    String::from_str("rtsp://127.0.0.1:8554/shadecore")
}

/// Frames per second of the stream when none is configured.
pub fn default_stream_fps() -> (r: u32)
    ensures
        r == 60,
{
    60
}

/// Bit rate of the stream, in kbit/s, when none is configured.
pub fn default_stream_bitrate_kbps() -> (r: u32)
    ensures
        r == 8000,
{
    8000
}

/// Key-frame interval of the stream, in frames, when none is configured.
pub fn default_stream_gop() -> (r: u32)
    ensures
        r == 120,
{
    120
}

/// The value of a flag that is on unless it is configured off.
pub fn default_true() -> (r: bool)
    ensures
        r,
{
    true
}

impl Clone for StreamCfg {
    fn clone(&self) -> (r: Self)
        ensures
            r == *self,
    {
        StreamCfg {
            enabled: self.enabled,
            target: self.target,
            rtsp_url: self.rtsp_url.clone(),
            rtmp_url: clone_option(&self.rtmp_url),
            fps: self.fps,
            bitrate_kbps: self.bitrate_kbps,
            gop: self.gop,
            vflip: self.vflip,
            ffmpeg_path: clone_option(&self.ffmpeg_path),
        }
    }
}

impl Default for StreamCfg {
    fn default() -> (r: Self)
        ensures
            !r.enabled,
            r.target == StreamTarget::Rtsp,
            r.rtsp_url@ == "rtsp://127.0.0.1:8554/shadecore"@,
            r.rtmp_url is None,
            r.fps == 60,
            r.bitrate_kbps == 8000,
            r.gop == 120,
            r.vflip,
            r.ffmpeg_path is None,
    {
        StreamCfg {
            enabled: false,
            target: default_stream_target(),
            rtsp_url: default_rtsp_url(),
            rtmp_url: None,
            fps: default_stream_fps(),
            bitrate_kbps: default_stream_bitrate_kbps(),
            gop: default_stream_gop(),
            vflip: true,
            ffmpeg_path: None,
        }
    }
}

/// Settings of the shared-frame sink.
#[derive(Debug)]
pub struct NdiCfg {
    pub enabled: bool,
    pub name: Option<String>,
    pub groups: Option<String>,
    pub clock_video: bool,
    pub fps_n: i32,
    pub fps_d: i32,
    pub vflip: bool,
}

/// Numerator of the shared-frame rate when none is configured.
pub fn default_ndi_fps_n() -> (r: i32)
    ensures
        r == 60,
{
    60
}

/// Denominator of the shared-frame rate when none is configured.
pub fn default_ndi_fps_d() -> (r: i32)
    ensures
        r == 1,
{
    1
}

impl Clone for NdiCfg {
    fn clone(&self) -> (r: Self)
        ensures
            r == *self,
    {
        NdiCfg {
            enabled: self.enabled,
            name: clone_option(&self.name),
            groups: clone_option(&self.groups),
            clock_video: self.clock_video,
            fps_n: self.fps_n,
            fps_d: self.fps_d,
            vflip: self.vflip,
        }
    }
}

impl Default for NdiCfg {
    fn default() -> (r: Self)
        ensures
            !r.enabled,
            r.name is None,
            r.groups is None,
            r.clock_video,
            r.fps_n == 60,
            r.fps_d == 1,
            r.vflip,
    {
        NdiCfg {
            enabled: false,
            name: None,
            groups: None,
            clock_video: true,
            fps_n: default_ndi_fps_n(),
            fps_d: default_ndi_fps_d(),
            vflip: true,
        }
    }
}

/// Settings of the macOS shared-texture sink.
#[derive(Debug)]
pub struct SyphonCfg {
    pub enabled: bool,
    pub server_name: Option<String>,
}

impl Default for SyphonCfg {
    fn default() -> (r: Self)
        ensures
            r.enabled,
            r.server_name is None,
    {
        SyphonCfg { enabled: true, server_name: None }
    }
}

/// Settings of the Windows shared-texture sink.
#[derive(Debug)]
pub struct SpoutCfg {
    pub enabled: bool,
    pub sender_name: Option<String>,
    pub invert: bool,
}

impl Default for SpoutCfg {
    fn default() -> (r: Self)
        ensures
            !r.enabled,
            r.sender_name is None,
            r.invert,
    {
        SpoutCfg { enabled: false, sender_name: None, invert: true }
    }
}

/// `x`, but at least one.
pub open spec fn at_least_one(x: int) -> int {
    if x < 1 {
        1
    } else {
        x
    }
}

/// Bytes of one RGBA frame of `w` by `h` pixels; a side below one counts
/// as one.
pub open spec fn spec_frame_bytes(w: int, h: int) -> int {
    at_least_one(w) * at_least_one(h) * 4
}

/// Bytes of one RGBA frame of `w` by `h` pixels.
pub fn frame_bytes(w: i32, h: i32) -> (r: u64)
    ensures
        r == spec_frame_bytes(w as int, h as int),
{
    let ww: u64 = if w < 1 {
        1
    } else {
        w as u64
    };
    let hh: u64 = if h < 1 {
        1
    } else {
        h as u64
    };
    assert(ww * hh <= 0x7FFF_FFFF * 0x7FFF_FFFF) by (nonlinear_arith)
        requires
            ww <= 0x7FFF_FFFF,
            hh <= 0x7FFF_FFFF,
    ;
    ww * hh * 4
}

/// Whether a frame is due at `fps` frames per second when `elapsed_nanos`
/// have passed since the last one: the time passed is at least one frame
/// interval. A rate of zero counts as one.
pub open spec fn spec_frame_due(elapsed_nanos: u64, fps: u32) -> bool {
    elapsed_nanos * at_least_one(fps as int) >= 1_000_000_000
}

/// Whether a frame is due at `fps` frames per second.
pub fn frame_due(elapsed_nanos: u64, fps: u32) -> (r: bool)
    ensures
        r == spec_frame_due(elapsed_nanos, fps),
{
    let rate: u128 = if fps < 1 {
        1
    } else {
        fps as u128
    };
    assert(elapsed_nanos * rate <= 0xFFFF_FFFF_FFFF_FFFF * 0xFFFF_FFFF) by (nonlinear_arith)
        requires
            elapsed_nanos <= 0xFFFF_FFFF_FFFF_FFFF,
            rate <= 0xFFFF_FFFF,
    ;
    (elapsed_nanos as u128) * rate >= 1_000_000_000
}

/// Whether a frame is due at `fps_n / fps_d` frames per second; numerator
/// and denominator below one count as one, and so does a rate below one.
pub open spec fn spec_frame_due_ratio(elapsed_nanos: u64, fps_n: i32, fps_d: i32) -> bool {
    let n = at_least_one(fps_n as int);
    let d = at_least_one(fps_d as int);
    if n >= d {
        elapsed_nanos * n >= 1_000_000_000 * d
    } else {
        elapsed_nanos >= 1_000_000_000
    }
}

/// Whether a frame is due at `fps_n / fps_d` frames per second.
pub fn frame_due_ratio(elapsed_nanos: u64, fps_n: i32, fps_d: i32) -> (r: bool)
    ensures
        r == spec_frame_due_ratio(elapsed_nanos, fps_n, fps_d),
{
    let n: u128 = if fps_n < 1 {
        1
    } else {
        fps_n as u128
    };
    let d: u128 = if fps_d < 1 {
        1
    } else {
        fps_d as u128
    };
    if n >= d {
        assert(elapsed_nanos * n <= 0xFFFF_FFFF_FFFF_FFFF * 0x7FFF_FFFF) by (nonlinear_arith)
            requires
                elapsed_nanos <= 0xFFFF_FFFF_FFFF_FFFF,
                n <= 0x7FFF_FFFF,
        ;
        (elapsed_nanos as u128) * n >= 1_000_000_000 * d
    } else {
        elapsed_nanos >= 1_000_000_000
    }
}

/// The encoder arguments that describe the raw frames it is fed.
pub open spec fn spec_stream_input_args(cfg: StreamCfg, w: i32, h: i32) -> Seq<Seq<char>> {
    seq![
        "-hide_banner"@,
        "-loglevel"@,
        "warning"@,
        "-f"@,
        "rawvideo"@,
        "-pix_fmt"@,
        "rgba"@,
        "-s"@,
        spec_signed_decimal(w as int) + "x"@ + spec_signed_decimal(h as int),
        "-r"@,
        spec_decimal(cfg.fps as nat),
        "-i"@,
        "-"@,
    ]
}

/// The encoder arguments that turn the picture upright, if asked for.
pub open spec fn spec_flip_args(vflip: bool) -> Seq<Seq<char>> {
    if vflip {
        seq!["-vf"@, "vflip"@]
    } else {
        Seq::empty()
    }
}

/// The encoder arguments for low-latency H.264.
pub open spec fn spec_stream_codec_args(cfg: StreamCfg) -> Seq<Seq<char>> {
    seq![
        "-an"@,
        "-c:v"@,
        "libx264"@,
        "-preset"@,
        "veryfast"@,
        "-tune"@,
        "zerolatency"@,
        "-pix_fmt"@,
        "yuv420p"@,
        "-g"@,
        spec_decimal(cfg.gop as nat),
        "-b:v"@,
        spec_decimal(cfg.bitrate_kbps as nat) + "k"@,
    ]
}

/// The encoder arguments that name the destination. `None` when the
/// target is RTMP and no address is configured.
pub open spec fn spec_stream_output_args(cfg: StreamCfg) -> Option<Seq<Seq<char>>> {
    match cfg.target {
        StreamTarget::Rtsp => Some(
            seq!["-f"@, "rtsp"@, "-rtsp_transport"@, "tcp"@, "-muxdelay"@, "0.1"@, cfg.rtsp_url@],
        ),
        StreamTarget::Rtmp => match cfg.rtmp_url {
            Some(url) => Some(seq!["-f"@, "flv"@, url@]),
            None => None,
        },
    }
}

/// The full argument list of the stream encoder.
pub open spec fn spec_stream_args(cfg: StreamCfg, w: i32, h: i32) -> Option<Seq<Seq<char>>> {
    match spec_stream_output_args(cfg) {
        Some(out) => Some(
            spec_stream_input_args(cfg, w, h) + spec_flip_args(cfg.vflip) + spec_stream_codec_args(cfg)
                + out,
        ),
        None => None,
    }
}

/// Appends one argument.
pub fn push_arg(args: &mut Vec<String>, s: &str)
    ensures
        views(final(args)@) == views(old(args)@).push(s@),
{
    args.push(String::from_str(s));
    assert(views(args@) =~= views(old(args)@).push(s@));
}

/// Appends one owned argument.
pub fn push_owned_arg(args: &mut Vec<String>, s: String)
    ensures
        views(final(args)@) == views(old(args)@).push(s@),
{
    args.push(s);
    assert(views(args@) =~= views(old(args)@).push(s@));
}

/// Appends the arguments that turn the picture upright, if asked for.
pub fn push_flip_args(args: &mut Vec<String>, vflip: bool)
    ensures
        views(final(args)@) == views(old(args)@) + spec_flip_args(vflip),
{
    if vflip {
        push_arg(args, "-vf");
        push_arg(args, "vflip");
        assert(views(args@) =~= views(old(args)@) + spec_flip_args(vflip));
    } else {
        assert(views(args@) =~= views(old(args)@) + spec_flip_args(vflip));
    }
}

/// Builds the argument list of the stream encoder.
pub fn stream_args(cfg: &StreamCfg, w: i32, h: i32) -> (r: Option<Vec<String>>)
    ensures
        match r {
            Some(args) => spec_stream_args(*cfg, w, h) == Some(views(args@)),
            None => spec_stream_args(*cfg, w, h) is None,
        },
{
    let mut args: Vec<String> = Vec::new();
    assert(views(args@) =~= Seq::<Seq<char>>::empty());
    push_arg(&mut args, "-hide_banner");
    push_arg(&mut args, "-loglevel");
    push_arg(&mut args, "warning");
    push_arg(&mut args, "-f");
    push_arg(&mut args, "rawvideo");
    push_arg(&mut args, "-pix_fmt");
    push_arg(&mut args, "rgba");
    push_arg(&mut args, "-s");
    let mut size = String::new();
    push_signed_decimal(&mut size, w as i64);
    size.append("x");
    push_signed_decimal(&mut size, h as i64);
    assert(size@ =~= spec_signed_decimal(w as int) + "x"@ + spec_signed_decimal(h as int));
    push_owned_arg(&mut args, size);
    push_arg(&mut args, "-r");
    push_owned_arg(&mut args, decimal_string(cfg.fps as u64));
    push_arg(&mut args, "-i");
    push_arg(&mut args, "-");
    assert(views(args@) =~= spec_stream_input_args(*cfg, w, h));
    push_flip_args(&mut args, cfg.vflip);
    let ghost head = views(args@);
    push_arg(&mut args, "-an");
    push_arg(&mut args, "-c:v");
    push_arg(&mut args, "libx264");
    push_arg(&mut args, "-preset");
    push_arg(&mut args, "veryfast");
    push_arg(&mut args, "-tune");
    push_arg(&mut args, "zerolatency");
    push_arg(&mut args, "-pix_fmt");
    push_arg(&mut args, "yuv420p");
    push_arg(&mut args, "-g");
    push_owned_arg(&mut args, decimal_string(cfg.gop as u64));
    push_arg(&mut args, "-b:v");
    let mut rate = decimal_string(cfg.bitrate_kbps as u64);
    rate.append("k");
    push_owned_arg(&mut args, rate);
    assert(views(args@) =~= head + spec_stream_codec_args(*cfg));
    let ghost body = views(args@);
    match cfg.target {
        StreamTarget::Rtsp => {
            push_arg(&mut args, "-f");
            push_arg(&mut args, "rtsp");
            push_arg(&mut args, "-rtsp_transport");
            push_arg(&mut args, "tcp");
            push_arg(&mut args, "-muxdelay");
            push_arg(&mut args, "0.1");
            push_owned_arg(&mut args, cfg.rtsp_url.clone());
            assert(views(args@) =~= body + spec_stream_output_args(*cfg)->0);
            Some(args)
        },
        StreamTarget::Rtmp => match &cfg.rtmp_url {
            Some(url) => {
                push_arg(&mut args, "-f");
                push_arg(&mut args, "flv");
                push_owned_arg(&mut args, url.clone());
                assert(views(args@) =~= body + spec_stream_output_args(*cfg)->0);
                Some(args)
            },
            None => None,
        },
    }
}

/// What the stream sink tells the operator, once.
#[derive(Clone, Copy, PartialEq, Eq, Structural, Debug)]
pub enum StreamNotice {
    /// The stream is pushed to an RTSP server, which has to be running.
    PushesToServer,
    /// The target is RTMP and no address is configured.
    MissingRtmpUrl,
}

/// The part of the stream sink that changes while it runs.
#[derive(Clone, Copy, PartialEq, Eq, Structural, Debug)]
pub struct WorkerState {
    /// Width the worker was started for.
    pub w: i32,
    /// Height the worker was started for.
    pub h: i32,
    /// Whether a worker is up.
    pub running: bool,
    /// Whether the sink has given its notice.
    pub warned: bool,
}

/// What a stream worker is started with.
pub struct StreamStart {
    pub program: String,
    pub args: Vec<String>,
}

/// What the caller does to the stream worker, in this order: stop the one
/// that is up, size the read-back buffer, start a new one, log the notice.
pub struct StreamPlan {
    pub stop: bool,
    pub resize: Option<u64>,
    pub start: Option<StreamStart>,
    pub notice: Option<StreamNotice>,
}

/// The notice a restart gives, if the sink has not given one yet.
pub open spec fn spec_stream_notice(cfg: StreamCfg, warned: bool) -> Option<StreamNotice> {
    if warned {
        None
    } else {
        match cfg.target {
            StreamTarget::Rtsp => Some(StreamNotice::PushesToServer),
            StreamTarget::Rtmp => if cfg.rtmp_url is None {
                Some(StreamNotice::MissingRtmpUrl)
            } else {
                None
            },
        }
    }
}

/// Whether the worker has to be restarted for a frame of `w` by `h`.
pub open spec fn spec_needs_restart(s: WorkerState, w: i32, h: i32) -> bool {
    !s.running || s.w != w || s.h != h
}

/// The state of the stream sink after it is made ready for `w` by `h`.
pub open spec fn spec_stream_ensure(cfg: StreamCfg, s: WorkerState, w: i32, h: i32) -> WorkerState {
    if !cfg.enabled {
        WorkerState { running: false, ..s }
    } else if !spec_needs_restart(s, w, h) {
        s
    } else {
        WorkerState {
            w,
            h,
            running: spec_stream_args(cfg, w, h) is Some,
            warned: s.warned || spec_stream_notice(cfg, false) is Some,
        }
    }
}

/// The program that encodes the stream.
pub open spec fn spec_stream_program(cfg: StreamCfg) -> Seq<char> {
    match cfg.ffmpeg_path {
        Some(p) => p@,
        None => "ffmpeg"@,
    }
}

/// Whether `plan` is what making the stream sink ready for `w` by `h`
/// asks of the caller.
pub open spec fn spec_stream_plan(cfg: StreamCfg, s: WorkerState, w: i32, h: i32, plan: StreamPlan) -> bool {
    if !cfg.enabled {
        &&& plan.stop == s.running
        &&& plan.resize is None
        &&& plan.start is None
        &&& plan.notice is None
    } else if !spec_needs_restart(s, w, h) {
        &&& !plan.stop
        &&& plan.resize is None
        &&& plan.start is None
        &&& plan.notice is None
    } else {
        &&& plan.stop == s.running
        &&& plan.resize == Some(spec_frame_bytes(w as int, h as int) as u64)
        &&& plan.notice == spec_stream_notice(cfg, s.warned)
        &&& match plan.start {
            Some(start) => {
                &&& spec_stream_args(cfg, w, h) == Some(views(start.args@))
                &&& start.program@ == spec_stream_program(cfg)
            },
            None => spec_stream_args(cfg, w, h) is None,
        }
    }
}

/// The stream sink.
pub struct StreamSender {
    cfg: StreamCfg,
    state: WorkerState,
}

impl StreamSender {
    /// The settings of the sink.
    pub closed spec fn spec_cfg(&self) -> StreamCfg {
        self.cfg
    }

    /// The changing part of the sink.
    pub closed spec fn state(&self) -> WorkerState {
        self.state
    }

    /// What holds of every sink: a worker is up only for a size and a
    /// configuration that give it a command line, the one it was started
    /// with.
    pub open spec fn wf(&self) -> bool {
        self.state().running ==> spec_stream_args(
            self.spec_cfg(),
            self.state().w,
            self.state().h,
        ) is Some
    }

    /// A sink with no worker up.
    pub fn new(cfg: StreamCfg) -> (r: Self)
        ensures
            r.wf(),
            r.spec_cfg() == cfg,
            r.state() == (WorkerState { w: 0, h: 0, running: false, warned: false }),
    {
        StreamSender { cfg, state: WorkerState { w: 0, h: 0, running: false, warned: false } }
    }

    /// Whether the configuration enables the sink.
    pub fn is_enabled(&self) -> (r: bool)
        ensures
            r == self.spec_cfg().enabled,
    {
        self.cfg.enabled
    }

    /// Whether a worker is up.
    pub fn is_running(&self) -> (r: bool)
        ensures
            r == self.state().running,
    {
        self.state.running
    }

    /// Makes the sink ready for frames of `w` by `h` pixels.
    ///
    /// A disabled sink is stopped. An enabled one is restarted when no
    /// worker is up or the size changed; otherwise it is left alone. A
    /// restart without a destination starts nothing and is tried again on
    /// the next frame.
    pub fn ensure_running(&mut self, w: i32, h: i32) -> (plan: StreamPlan)
        requires
            old(self).wf(),
        ensures
            final(self).wf(),
            final(self).spec_cfg() == old(self).spec_cfg(),
            final(self).state() == spec_stream_ensure(old(self).spec_cfg(), old(self).state(), w, h),
            spec_stream_plan(old(self).spec_cfg(), old(self).state(), w, h, plan),
    {
        if !self.cfg.enabled {
            let stop = self.state.running;
            self.state.running = false;
            return StreamPlan { stop, resize: None, start: None, notice: None };
        }
        let needs_restart = !self.state.running || self.state.w != w || self.state.h != h;
        if !needs_restart {
            return StreamPlan { stop: false, resize: None, start: None, notice: None };
        }
        let stop = self.state.running;
        let missing = match self.cfg.target {
            StreamTarget::Rtsp => false,
            StreamTarget::Rtmp => self.cfg.rtmp_url.is_none(),
        };
        let speaks = match self.cfg.target {
            StreamTarget::Rtsp => true,
            StreamTarget::Rtmp => missing,
        };
        let notice = if self.state.warned || !speaks {
            None
        } else if missing {
            Some(StreamNotice::MissingRtmpUrl)
        } else {
            Some(StreamNotice::PushesToServer)
        };
        let start = match stream_args(&self.cfg, w, h) {
            Some(args) => {
                let program = match &self.cfg.ffmpeg_path {
                    Some(p) => p.clone(),
                    None => String::from_str("ffmpeg"),
                };
                Some(StreamStart { program, args })
            },
            None => None,
        };
        self.state = WorkerState {
            w,
            h,
            running: start.is_some(),
            warned: self.state.warned || speaks,
        };
        StreamPlan { stop, resize: Some(frame_bytes(w, h)), start, notice }
    }

    /// Decides what a rendered frame of `w` by `h` pixels means for the
    /// sink, `elapsed_nanos` after the last frame it sent. Returns what to
    /// do to the worker and whether to read the frame back and send it.
    ///
    /// A disabled sink does nothing at all. A frame is sent when a worker is
    /// up and a frame interval has passed.
    pub fn send_current_fbo_frame(&mut self, w: i32, h: i32, elapsed_nanos: u64) -> (r: (
        StreamPlan,
        bool,
    ))
        requires
            old(self).wf(),
        ensures
            final(self).wf(),
            final(self).spec_cfg() == old(self).spec_cfg(),
            !old(self).spec_cfg().enabled ==> {
                &&& final(self).state() == old(self).state()
                &&& !r.0.stop && r.0.resize is None && r.0.start is None && r.0.notice is None
                &&& !r.1
            },
            old(self).spec_cfg().enabled ==> {
                &&& final(self).state() == spec_stream_ensure(
                    old(self).spec_cfg(),
                    old(self).state(),
                    w,
                    h,
                )
                &&& spec_stream_plan(old(self).spec_cfg(), old(self).state(), w, h, r.0)
                &&& r.1 == (final(self).state().running && spec_frame_due(
                    elapsed_nanos,
                    old(self).spec_cfg().fps,
                ))
            },
    {
        if !self.cfg.enabled {
            return (StreamPlan { stop: false, resize: None, start: None, notice: None }, false);
        }
        let plan = self.ensure_running(w, h);
        let capture = self.state.running && frame_due(elapsed_nanos, self.cfg.fps);
        (plan, capture)
    }

    /// Marks the worker as stopped. Returns whether one was up, in which
    /// case the caller tells it to stop.
    pub fn stop(&mut self) -> (was_running: bool)
        ensures
            final(self).wf(),
            was_running == old(self).state().running,
            final(self).spec_cfg() == old(self).spec_cfg(),
            final(self).state() == (WorkerState { running: false, ..old(self).state() }),
    {
        let was = self.state.running;
        self.state.running = false;
        was
    }
}

/// What a shared-frame worker is started with.
pub struct NdiStart {
    pub name: String,
    pub groups: Option<String>,
    pub clock_video: bool,
    pub fps_n: i32,
    pub fps_d: i32,
}

/// What the caller does to the shared-frame worker, in this order: stop the
/// one that is up, size the buffers, start a new one.
pub struct NdiPlan {
    pub stop: bool,
    pub resize: Option<u64>,
    pub start: Option<NdiStart>,
}

/// The state of the shared-frame sink after it is made ready for `w` by `h`.
pub open spec fn spec_ndi_ensure(cfg: NdiCfg, s: WorkerState, w: i32, h: i32) -> WorkerState {
    if !cfg.enabled {
        WorkerState { running: false, ..s }
    } else if !spec_needs_restart(s, w, h) {
        s
    } else {
        WorkerState { w, h, running: true, warned: false }
    }
}

/// The name under which the sink is announced.
pub open spec fn spec_ndi_name(cfg: NdiCfg) -> Seq<char> {
    match cfg.name {
        Some(n) => n@,
        None => "shadecore"@,
    }
}

/// Whether `plan` is what making the shared-frame sink ready asks of the
/// caller.
pub open spec fn spec_ndi_plan(cfg: NdiCfg, s: WorkerState, w: i32, h: i32, plan: NdiPlan) -> bool {
    if !cfg.enabled {
        plan.stop == s.running && plan.resize is None && plan.start is None
    } else if !spec_needs_restart(s, w, h) {
        !plan.stop && plan.resize is None && plan.start is None
    } else {
        &&& plan.stop == s.running
        &&& plan.resize == Some(spec_frame_bytes(w as int, h as int) as u64)
        &&& plan.start matches Some(start) && {
            &&& start.name@ == spec_ndi_name(cfg)
            &&& start.groups == cfg.groups
            &&& start.clock_video == cfg.clock_video
            &&& start.fps_n == at_least_one(cfg.fps_n as int)
            &&& start.fps_d == at_least_one(cfg.fps_d as int)
        }
    }
}

/// The shared-frame sink.
pub struct NdiSender {
    cfg: NdiCfg,
    state: WorkerState,
}

impl NdiSender {
    /// The settings of the sink.
    pub closed spec fn spec_cfg(&self) -> NdiCfg {
        self.cfg
    }

    /// The changing part of the sink.
    pub closed spec fn state(&self) -> WorkerState {
        self.state
    }

    /// A sink with no worker up.
    pub fn new(cfg: NdiCfg) -> (r: Self)
        ensures
            r.spec_cfg() == cfg,
            r.state() == (WorkerState { w: 0, h: 0, running: false, warned: false }),
    {
        NdiSender { cfg, state: WorkerState { w: 0, h: 0, running: false, warned: false } }
    }

    /// Whether the configuration enables the sink.
    pub fn is_enabled(&self) -> (r: bool)
        ensures
            r == self.spec_cfg().enabled,
    {
        self.cfg.enabled
    }

    /// Whether the frames are flipped upright before they are sent.
    pub fn flips(&self) -> (r: bool)
        ensures
            r == self.spec_cfg().vflip,
    {
        self.cfg.vflip
    }

    /// Makes the sink ready for frames of `w` by `h` pixels: a disabled
    /// sink is stopped; an enabled one is restarted when no worker is up or
    /// the size changed, and left alone otherwise.
    pub fn ensure_running(&mut self, w: i32, h: i32) -> (plan: NdiPlan)
        ensures
            final(self).spec_cfg() == old(self).spec_cfg(),
            final(self).state() == spec_ndi_ensure(old(self).spec_cfg(), old(self).state(), w, h),
            spec_ndi_plan(old(self).spec_cfg(), old(self).state(), w, h, plan),
    {
        if !self.cfg.enabled {
            let stop = self.state.running;
            self.state.running = false;
            return NdiPlan { stop, resize: None, start: None };
        }
        let needs_restart = !self.state.running || self.state.w != w || self.state.h != h;
        if !needs_restart {
            return NdiPlan { stop: false, resize: None, start: None };
        }
        let stop = self.state.running;
        let name = match &self.cfg.name {
            Some(n) => n.clone(),
            None => String::from_str("shadecore"),
        };
        let groups = match &self.cfg.groups {
            Some(g) => Some(g.clone()),
            None => None,
        };
        let fps_n = if self.cfg.fps_n < 1 {
            1
        } else {
            self.cfg.fps_n
        };
        let fps_d = if self.cfg.fps_d < 1 {
            1
        } else {
            self.cfg.fps_d
        };
        self.state = WorkerState { w, h, running: true, warned: false };
        NdiPlan {
            stop,
            resize: Some(frame_bytes(w, h)),
            start: Some(NdiStart { name, groups, clock_video: self.cfg.clock_video, fps_n, fps_d }),
        }
    }

    /// Decides what a rendered frame of `w` by `h` pixels means for the
    /// sink, `elapsed_nanos` after the last frame it sent. Returns what to
    /// do to the worker and whether to read the frame back and send it.
    pub fn send_current_fbo_frame(&mut self, w: i32, h: i32, elapsed_nanos: u64) -> (r: (NdiPlan, bool))
        ensures
            final(self).spec_cfg() == old(self).spec_cfg(),
            !old(self).spec_cfg().enabled ==> {
                &&& final(self).state() == old(self).state()
                &&& !r.0.stop && r.0.resize is None && r.0.start is None
                &&& !r.1
            },
            old(self).spec_cfg().enabled ==> {
                &&& final(self).state() == spec_ndi_ensure(old(self).spec_cfg(), old(self).state(), w, h)
                &&& spec_ndi_plan(old(self).spec_cfg(), old(self).state(), w, h, r.0)
                &&& r.1 == spec_frame_due_ratio(
                    elapsed_nanos,
                    old(self).spec_cfg().fps_n,
                    old(self).spec_cfg().fps_d,
                )
            },
    {
        if !self.cfg.enabled {
            return (NdiPlan { stop: false, resize: None, start: None }, false);
        }
        let plan = self.ensure_running(w, h);
        let capture = frame_due_ratio(elapsed_nanos, self.cfg.fps_n, self.cfg.fps_d);
        (plan, capture)
    }

    /// Takes the news that the worker's queue was full and a frame was
    /// dropped. Returns whether to log it: only the first drop since the
    /// worker was started is logged.
    pub fn frame_dropped(&mut self) -> (log: bool)
        ensures
            log == !old(self).state().warned,
            final(self).spec_cfg() == old(self).spec_cfg(),
            final(self).state() == (WorkerState { warned: true, ..old(self).state() }),
    {
        let log = !self.state.warned;
        self.state.warned = true;
        log
    }

    /// Marks the worker as stopped. Returns whether one was up, in which
    /// case the caller tells it to stop and waits for it.
    pub fn stop(&mut self) -> (was_running: bool)
        ensures
            was_running == old(self).state().running,
            final(self).spec_cfg() == old(self).spec_cfg(),
            final(self).state() == (WorkerState { running: false, ..old(self).state() }),
    {
        let was = self.state.running;
        self.state.running = false;
        was
    }
}

} // verus!
