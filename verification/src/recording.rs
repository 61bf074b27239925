//! Recording: the settings, the encoder's argument list and the recorder's
//! state. The recorder decides; the caller creates directories, starts the
//! encoder and feeds it.

use vstd::prelude::*;
use vstd::string::*;
use crate::assets::{join, spec_join};
use crate::names::NameMap;
use crate::sinks::{at_least_one, push_arg, push_flip_args, push_owned_arg, spec_flip_args};
use crate::text::{decimal_string, push_decimal, spec_decimal, views};

verus! {

/// The container of the recorded file.
#[derive(Clone, Copy, PartialEq, Eq, Structural, Debug)]
pub enum Container {
    Mp4,
    Mov,
}

impl Default for Container {
    fn default() -> (r: Self)
        ensures
            r == Container::Mp4,
    {
        Container::Mp4
    }
}

/// The video codec of the recorded file.
#[derive(Clone, Copy, PartialEq, Eq, Structural, Debug)]
pub enum Codec {
    H264,
    Prores,
}

impl Default for Codec {
    fn default() -> (r: Self)
        ensures
            r == Codec::H264,
    {
        Codec::H264
    }
}

/// The recording settings.
#[derive(Debug)]
pub struct RecordingCfg {
    pub enabled: bool,
    pub toggle_keys: Vec<String>,
    pub start_keys: Vec<String>,
    pub stop_keys: Vec<String>,
    pub out_dir: String,
    pub ffmpeg_path: String,
    pub fps: u32,
    pub width: u32,
    pub height: u32,
    pub container: Container,
    pub codec: Codec,
    pub h264_crf: u32,
    pub h264_preset: String,
    pub pix_fmt_out: String,
    pub prores_profile: u32,
    pub vflip: bool,
}

/// No key toggles recording unless one is configured.
pub fn default_toggle_keys() -> (r: Vec<String>)
    ensures
        r@.len() == 0,
{
    Vec::new()
}

/// The key that starts a recording unless another is configured.
pub fn default_start_keys() -> (r: Vec<String>)
    ensures
        views(r@) == seq!["KeyR"@],
{
    let mut v: Vec<String> = Vec::new();
    v.push(String::from_str("KeyR"));
    assert(views(v@) =~= seq!["KeyR"@]);
    v
}

/// The key that stops a recording unless another is configured.
pub fn default_stop_keys() -> (r: Vec<String>)
    ensures
        views(r@) == seq!["KeyS"@],
{
    let mut v: Vec<String> = Vec::new();
    v.push(String::from_str("KeyS"));
    assert(views(v@) =~= seq!["KeyS"@]);
    v
}

/// The directory recordings go to unless another is configured.
pub fn default_out_dir() -> (r: String)
    ensures
        r@ == "captures"@,
{
    String::from_str("captures")
}

/// The encoder program unless another is configured.
pub fn default_ffmpeg() -> (r: String)
    ensures
        r@ == "ffmpeg"@,
{
    String::from_str("ffmpeg")
}

/// Frames per second of a recording unless configured.
pub fn default_fps() -> (r: u32)
    ensures
        r == 60,
{
    60
}

/// Width of a recording unless configured.
pub fn default_width() -> (r: u32)
    ensures
        r == 1920,
{
    1920
}

/// Height of a recording unless configured.
pub fn default_height() -> (r: u32)
    ensures
        r == 1080,
{
    1080
}

/// Quality of an H.264 recording unless configured.
pub fn default_h264_crf() -> (r: u32)
    ensures
        r == 18,
{
    18
}

/// Encoder preset of an H.264 recording unless configured.
pub fn default_h264_preset() -> (r: String)
    ensures
        r@ == "veryfast"@,
{
    String::from_str("veryfast")
}

/// Pixel format of an H.264 recording unless configured.
pub fn default_pix_fmt_out() -> (r: String)
    ensures
        r@ == "yuv420p"@,
{
    String::from_str("yuv420p")
}

/// Profile of a ProRes recording unless configured.
pub fn default_prores_profile() -> (r: u32)
    ensures
        r == 3,
{
    3
}

/// Recordings are flipped upright unless configured otherwise.
pub fn default_vflip() -> (r: bool)
    ensures
        r,
{
    true
}

/// Whether `cfg` holds the default settings.
pub open spec fn spec_is_default_cfg(cfg: RecordingCfg) -> bool {
    &&& !cfg.enabled
    &&& cfg.toggle_keys@.len() == 0
    &&& views(cfg.start_keys@) == seq!["KeyR"@]
    &&& views(cfg.stop_keys@) == seq!["KeyS"@]
    &&& cfg.out_dir@ == "captures"@
    &&& cfg.ffmpeg_path@ == "ffmpeg"@
    &&& cfg.fps == 60
    &&& cfg.width == 1920
    &&& cfg.height == 1080
    &&& cfg.container == Container::Mp4
    &&& cfg.codec == Codec::H264
    &&& cfg.h264_crf == 18
    &&& cfg.h264_preset@ == "veryfast"@
    &&& cfg.pix_fmt_out@ == "yuv420p"@
    &&& cfg.prores_profile == 3
    &&& cfg.vflip
}

impl Default for RecordingCfg {
    fn default() -> (r: Self)
        ensures
            spec_is_default_cfg(r),
    {
        RecordingCfg {
            enabled: false,
            toggle_keys: default_toggle_keys(),
            start_keys: default_start_keys(),
            stop_keys: default_stop_keys(),
            out_dir: default_out_dir(),
            ffmpeg_path: default_ffmpeg(),
            fps: default_fps(),
            width: default_width(),
            height: default_height(),
            container: Container::Mp4,
            codec: Codec::H264,
            h264_crf: default_h264_crf(),
            h264_preset: default_h264_preset(),
            pix_fmt_out: default_pix_fmt_out(),
            prores_profile: default_prores_profile(),
            vflip: default_vflip(),
        }
    }
}

/// A copy of a list of strings.
pub fn clone_strings(v: &Vec<String>) -> (r: Vec<String>)
    ensures
        r@ == v@,
{
    let mut out: Vec<String> = Vec::new();
    let mut i: usize = 0;
    while i < v.len()
        invariant
            i <= v.len(),
            out@ == v@.take(i as int),
        decreases v.len() - i,
    {
        out.push(v[i].clone());
        assert(v@.take(i + 1) == v@.take(i as int).push(v@[i as int]));
        i += 1;
    }
    assert(v@.take(v@.len() as int) == v@);
    out
}

/// Whether two settings say the same.
pub open spec fn spec_same_cfg(a: RecordingCfg, b: RecordingCfg) -> bool {
    &&& a.enabled == b.enabled
    &&& a.toggle_keys@ == b.toggle_keys@
    &&& a.start_keys@ == b.start_keys@
    &&& a.stop_keys@ == b.stop_keys@
    &&& a.out_dir == b.out_dir
    &&& a.ffmpeg_path == b.ffmpeg_path
    &&& a.fps == b.fps
    &&& a.width == b.width
    &&& a.height == b.height
    &&& a.container == b.container
    &&& a.codec == b.codec
    &&& a.h264_crf == b.h264_crf
    &&& a.h264_preset == b.h264_preset
    &&& a.pix_fmt_out == b.pix_fmt_out
    &&& a.prores_profile == b.prores_profile
    &&& a.vflip == b.vflip
}

impl Clone for RecordingCfg {
    fn clone(&self) -> (r: Self)
        ensures
            spec_same_cfg(r, *self),
    {
        RecordingCfg {
            enabled: self.enabled,
            toggle_keys: clone_strings(&self.toggle_keys),
            start_keys: clone_strings(&self.start_keys),
            stop_keys: clone_strings(&self.stop_keys),
            out_dir: self.out_dir.clone(),
            ffmpeg_path: self.ffmpeg_path.clone(),
            fps: self.fps,
            width: self.width,
            height: self.height,
            container: self.container,
            codec: self.codec,
            h264_crf: self.h264_crf,
            h264_preset: self.h264_preset.clone(),
            pix_fmt_out: self.pix_fmt_out.clone(),
            prores_profile: self.prores_profile,
            vflip: self.vflip,
        }
    }
}

/// The file extension of a container.
pub open spec fn spec_extension(container: Container) -> Seq<char> {
    match container {
        Container::Mp4 => "mp4"@,
        Container::Mov => "mov"@,
    }
}

/// The name of a recording started at `now_secs` seconds after the epoch.
pub open spec fn spec_filename(container: Container, now_secs: u64) -> Seq<char> {
    "shadecore_capture_"@ + spec_decimal(now_secs as nat) + "."@ + spec_extension(container)
}

/// Names the file of a recording started at `now_secs` seconds after the
/// epoch.
pub fn make_filename(container: Container, now_secs: u64) -> (r: String)
    ensures
        r@ == spec_filename(container, now_secs),
{
    let mut out = String::from_str("shadecore_capture_");
    push_decimal(&mut out, now_secs);
    out.append(".");
    match container {
        Container::Mp4 => out.append("mp4"),
        Container::Mov => out.append("mov"),
    }
    out
}

/// Why a recording does not start.
#[derive(Clone, Copy, PartialEq, Eq, Structural, Debug)]
pub enum RecorderError {
    /// The settings do not enable recording.
    Disabled,
    /// A recording already runs.
    AlreadyStarted,
    /// The container cannot hold the codec.
    UnsupportedCombination,
}

impl RecorderError {
    /// The error in words.
    pub fn message(&self) -> (r: String)
        ensures
            r@ == match *self {
                RecorderError::Disabled => "Recording is disabled in recording.json"@,
                RecorderError::AlreadyStarted => "Recorder already started"@,
                RecorderError::UnsupportedCombination => "Unsupported container/codec combination"@,
            },
    {
        match self {
            RecorderError::Disabled => String::from_str("Recording is disabled in recording.json"),
            RecorderError::AlreadyStarted => String::from_str("Recorder already started"),
            RecorderError::UnsupportedCombination => String::from_str(
                "Unsupported container/codec combination",
            ),
        }
    }
}

/// Whether a container can hold a codec.
pub open spec fn spec_supported(container: Container, codec: Codec) -> bool {
    !(container == Container::Mp4 && codec == Codec::Prores)
}

/// The encoder arguments that describe the raw frames it is fed.
pub open spec fn spec_record_input_args(cfg: RecordingCfg) -> Seq<Seq<char>> {
    seq![
        "-y"@,
        "-f"@,
        "rawvideo"@,
        "-pix_fmt"@,
        "rgba"@,
        "-video_size"@,
        spec_decimal(at_least_one(cfg.width as int) as nat) + "x"@ + spec_decimal(
            at_least_one(cfg.height as int) as nat,
        ),
        "-r"@,
        spec_decimal(at_least_one(cfg.fps as int) as nat),
        "-i"@,
        "pipe:0"@,
    ]
}

/// The encoder arguments that choose the codec and name the file.
pub open spec fn spec_record_codec_args(cfg: RecordingCfg, out_path: Seq<char>) -> Seq<Seq<char>> {
    match cfg.codec {
        Codec::H264 => seq![
            "-an"@,
            "-c:v"@,
            "libx264"@,
            "-preset"@,
            cfg.h264_preset@,
            "-crf"@,
            spec_decimal(cfg.h264_crf as nat),
            "-pix_fmt"@,
            cfg.pix_fmt_out@,
            out_path,
        ],
        Codec::Prores => seq![
            "-an"@,
            "-c:v"@,
            "prores_ks"@,
            "-profile:v"@,
            spec_decimal(cfg.prores_profile as nat),
            out_path,
        ],
    }
}

/// The full argument list of the recording encoder.
pub open spec fn spec_record_args(cfg: RecordingCfg, out_path: Seq<char>) -> Seq<Seq<char>> {
    spec_record_input_args(cfg) + spec_flip_args(cfg.vflip) + spec_record_codec_args(cfg, out_path)
}

/// `x`, but at least one.
fn min_one(x: u32) -> (r: u64)
    ensures
        r == at_least_one(x as int),
{
    if x < 1 {
        1
    } else {
        x as u64
    }
}

/// Builds the argument list of the recording encoder.
pub fn record_args(cfg: &RecordingCfg, out_path: &str) -> (r: Result<Vec<String>, RecorderError>)
    ensures
        match r {
            Ok(args) => spec_supported(cfg.container, cfg.codec) && views(args@) == spec_record_args(
                *cfg,
                out_path@,
            ),
            Err(e) => !spec_supported(cfg.container, cfg.codec) && e
                == RecorderError::UnsupportedCombination,
        },
{
    if cfg.container == Container::Mp4 && cfg.codec == Codec::Prores {
        return Err(RecorderError::UnsupportedCombination);
    }
    let mut args: Vec<String> = Vec::new();
    assert(views(args@) =~= Seq::<Seq<char>>::empty());
    push_arg(&mut args, "-y");
    push_arg(&mut args, "-f");
    push_arg(&mut args, "rawvideo");
    push_arg(&mut args, "-pix_fmt");
    push_arg(&mut args, "rgba");
    push_arg(&mut args, "-video_size");
    let mut size = decimal_string(min_one(cfg.width));
    size.append("x");
    push_decimal(&mut size, min_one(cfg.height));
    push_owned_arg(&mut args, size);
    push_arg(&mut args, "-r");
    push_owned_arg(&mut args, decimal_string(min_one(cfg.fps)));
    push_arg(&mut args, "-i");
    push_arg(&mut args, "pipe:0");
    assert(views(args@) =~= spec_record_input_args(*cfg));
    push_flip_args(&mut args, cfg.vflip);
    let ghost head = views(args@);
    match cfg.codec {
        Codec::H264 => {
            push_arg(&mut args, "-an");
            push_arg(&mut args, "-c:v");
            push_arg(&mut args, "libx264");
            push_arg(&mut args, "-preset");
            push_arg(&mut args, cfg.h264_preset.as_str());
            push_arg(&mut args, "-crf");
            push_owned_arg(&mut args, decimal_string(cfg.h264_crf as u64));
            push_arg(&mut args, "-pix_fmt");
            push_arg(&mut args, cfg.pix_fmt_out.as_str());
            push_arg(&mut args, out_path);
        },
        Codec::Prores => {
            push_arg(&mut args, "-an");
            push_arg(&mut args, "-c:v");
            push_arg(&mut args, "prores_ks");
            push_arg(&mut args, "-profile:v");
            push_owned_arg(&mut args, decimal_string(cfg.prores_profile as u64));
            push_arg(&mut args, out_path);
        },
    }
    assert(views(args@) =~= head + spec_record_codec_args(*cfg, out_path@));
    Ok(args)
}

/// What the caller does to start a recording: create the directory, start
/// the encoder with the arguments, which name the file.
pub struct StartPlan {
    pub out_dir: String,
    pub out_path: String,
    pub program: String,
    pub args: Vec<String>,
}

/// The directory recordings go to: the configured one, seen from the
/// assets directory unless it is absolute.
pub open spec fn spec_out_dir(cfg: RecordingCfg, assets_base: Seq<char>) -> Seq<char> {
    spec_join(assets_base, cfg.out_dir@)
}

/// The file of a recording started at `now_secs`.
pub open spec fn spec_out_path(cfg: RecordingCfg, assets_base: Seq<char>, now_secs: u64) -> Seq<char> {
    spec_join(spec_out_dir(cfg, assets_base), spec_filename(cfg.container, now_secs))
}

/// The error that keeps a recording from starting, if there is one.
pub open spec fn spec_start_error(cfg: RecordingCfg, recording: bool) -> Option<RecorderError> {
    if !cfg.enabled {
        Some(RecorderError::Disabled)
    } else if recording {
        Some(RecorderError::AlreadyStarted)
    } else if !spec_supported(cfg.container, cfg.codec) {
        Some(RecorderError::UnsupportedCombination)
    } else {
        None
    }
}

/// Bytes of one frame of the configured resolution; a side of zero counts
/// as one.
pub open spec fn spec_buf_len(cfg: RecordingCfg) -> int {
    at_least_one(cfg.width as int) * at_least_one(cfg.height as int) * 4
}

/// The recorder.
pub struct Recorder {
    cfg: RecordingCfg,
    is_recording: bool,
    buf_rgba: Vec<u8>,
}

impl Recorder {
    /// The settings in force.
    pub closed spec fn spec_cfg(&self) -> RecordingCfg {
        self.cfg
    }

    /// Whether a recording runs.
    pub closed spec fn spec_is_recording(&self) -> bool {
        self.is_recording
    }

    /// The read-back buffer.
    pub closed spec fn spec_buf(&self) -> Seq<u8> {
        self.buf_rgba@
    }

    /// A recorder that does not record. Its read-back buffer is sized when
    /// it is first asked for.
    pub fn new(cfg: RecordingCfg) -> (r: Self)
        ensures
            r.spec_cfg() == cfg,
            !r.spec_is_recording(),
            r.spec_buf().len() == 0,
    {
        Recorder { cfg, is_recording: false, buf_rgba: Vec::new() }
    }

    /// The settings in force.
    pub fn cfg(&self) -> (r: &RecordingCfg)
        ensures
            *r == self.spec_cfg(),
    {
        &self.cfg
    }

    /// Replaces the settings and empties the read-back buffer. Meant for a
    /// recorder that does not record; a running recording keeps running.
    pub fn set_cfg(&mut self, cfg: RecordingCfg)
        ensures
            final(self).spec_cfg() == cfg,
            final(self).spec_is_recording() == old(self).spec_is_recording(),
            final(self).spec_buf().len() == 0,
    {
        self.cfg = cfg;
        self.buf_rgba = Vec::new();
    }

    /// Whether the settings enable recording.
    pub fn is_enabled(&self) -> (r: bool)
        ensures
            r == self.spec_cfg().enabled,
    {
        self.cfg.enabled
    }

    /// Whether a recording runs.
    pub fn is_recording(&self) -> (r: bool)
        ensures
            r == self.spec_is_recording(),
    {
        self.is_recording
    }

    /// Gives the read-back buffer the size of one frame of the configured
    /// resolution: a longer buffer is cut, a shorter one filled up with
    /// zeros. Returns `false`, and leaves the buffer as it is, when that
    /// size cannot be addressed.
    pub fn ensure_buf_size(&mut self) -> (ok: bool)
        ensures
            final(self).spec_cfg() == old(self).spec_cfg(),
            final(self).spec_is_recording() == old(self).spec_is_recording(),
            ok == (spec_buf_len(old(self).spec_cfg()) <= usize::MAX),
            ok ==> final(self).spec_buf().len() == spec_buf_len(old(self).spec_cfg()),
            ok ==> forall|i: int|
                0 <= i < final(self).spec_buf().len() ==> #[trigger] final(self).spec_buf()[i] == if i
                    < old(self).spec_buf().len() {
                    old(self).spec_buf()[i]
                } else {
                    0u8
                },
            !ok ==> final(self).spec_buf() == old(self).spec_buf(),
    {
        let w = min_one(self.cfg.width);
        let h = min_one(self.cfg.height);
        assert(w * h * 4 <= 0xFFFF_FFFF * 0xFFFF_FFFF * 4) by (nonlinear_arith)
            requires
                w <= 0xFFFF_FFFF,
                h <= 0xFFFF_FFFF,
        ;
        let bytes: u128 = (w as u128) * (h as u128) * 4;
        if bytes > usize::MAX as u128 {
            return false;
        }
        let n = bytes as usize;
        if self.buf_rgba.len() != n {
            self.buf_rgba.resize(n, 0);
        }
        true
    }

    /// The read-back buffer, sized for one frame where that size can be
    /// addressed, for the caller to fill.
    pub fn buf_mut(&mut self) -> (r: &mut Vec<u8>)
        ensures
            spec_buf_len(old(self).spec_cfg()) <= usize::MAX ==> r@.len() == spec_buf_len(
                old(self).spec_cfg(),
            ),
            spec_buf_len(old(self).spec_cfg()) > usize::MAX ==> r@ == old(self).spec_buf(),
            final(self).spec_buf() == final(r)@,
            final(self).spec_cfg() == old(self).spec_cfg(),
            final(self).spec_is_recording() == old(self).spec_is_recording(),
    {
        let _ = self.ensure_buf_size();
        &mut self.buf_rgba
    }

    /// A copy of the read-back buffer for the worker's queue while a
    /// recording runs, and nothing otherwise.
    pub fn try_send_frame(&self) -> (r: Option<Vec<u8>>)
        ensures
            match r {
                Some(frame) => self.spec_is_recording() && frame@ == self.spec_buf(),
                None => !self.spec_is_recording(),
            },
    {
        if self.is_recording {
            Some(self.buf_rgba.clone())
        } else {
            None
        }
    }

    /// Plans the start of a recording at `now_secs` seconds after the
    /// epoch. The recorder's state does not change: the caller reports with
    /// [`Self::started`] that the encoder runs.
    pub fn start(&self, assets_base: &str, now_secs: u64) -> (r: Result<StartPlan, RecorderError>)
        ensures
            match r {
                Ok(plan) => {
                    &&& spec_start_error(self.spec_cfg(), self.spec_is_recording()) is None
                    &&& plan.out_dir@ == spec_out_dir(self.spec_cfg(), assets_base@)
                    &&& plan.out_path@ == spec_out_path(self.spec_cfg(), assets_base@, now_secs)
                    &&& plan.program@ == self.spec_cfg().ffmpeg_path@
                    &&& views(plan.args@) == spec_record_args(self.spec_cfg(), plan.out_path@)
                },
                Err(e) => spec_start_error(self.spec_cfg(), self.spec_is_recording()) == Some(e),
            },
    {
        if !self.cfg.enabled {
            return Err(RecorderError::Disabled);
        }
        if self.is_recording {
            return Err(RecorderError::AlreadyStarted);
        }
        let out_dir = join(assets_base, self.cfg.out_dir.as_str());
        let name = make_filename(self.cfg.container, now_secs);
        let out_path = join(out_dir.as_str(), name.as_str());
        match record_args(&self.cfg, out_path.as_str()) {
            Ok(args) => Ok(StartPlan { out_dir, out_path, program: self.cfg.ffmpeg_path.clone(), args }),
            Err(e) => Err(e),
        }
    }

    /// Takes the news that the encoder of a planned recording runs.
    pub fn started(&mut self)
        ensures
            final(self).spec_is_recording(),
            final(self).spec_cfg() == old(self).spec_cfg(),
            final(self).spec_buf() == old(self).spec_buf(),
    {
        self.is_recording = true;
    }

    /// Ends the recording. Returns whether one ran, in which case the
    /// caller stops the worker, closes the encoder's input and waits for
    /// the encoder.
    pub fn stop(&mut self) -> (was_recording: bool)
        ensures
            was_recording == old(self).spec_is_recording(),
            !final(self).spec_is_recording(),
            final(self).spec_cfg() == old(self).spec_cfg(),
            final(self).spec_buf() == old(self).spec_buf(),
    {
        let was = self.is_recording;
        self.is_recording = false;
        was
    }

    /// Passes an owned frame on to the worker's queue while a recording
    /// runs, and drops it otherwise.
    pub fn try_send_frame_owned(&self, frame: Vec<u8>) -> (r: Option<Vec<u8>>)
        ensures
            r == if self.spec_is_recording() {
                Some(frame)
            } else {
                None
            },
    {
        if self.is_recording {
            Some(frame)
        } else {
            None
        }
    }
}

/// Overrides of the recording settings by a named profile.
pub struct RecordingProfile {
    pub out_dir: Option<String>,
    pub container: Option<Container>,
    pub codec: Option<Codec>,
    pub fps: Option<u32>,
    pub width: Option<u32>,
    pub height: Option<u32>,
    pub ffmpeg_path: Option<String>,
    pub h264_crf: Option<u32>,
    pub h264_preset: Option<String>,
    pub pix_fmt_out: Option<String>,
    pub prores_profile: Option<u32>,
    pub vflip: Option<bool>,
}

/// `over` where it is set, else `base`.
pub open spec fn spec_or<T>(over: Option<T>, base: T) -> T {
    match over {
        Some(v) => v,
        None => base,
    }
}

/// The settings with a profile laid over them: every field that the
/// profile sets is taken from it.
pub open spec fn spec_with_profile(cfg: RecordingCfg, p: RecordingProfile) -> RecordingCfg {
    RecordingCfg {
        out_dir: spec_or(p.out_dir, cfg.out_dir),
        container: spec_or(p.container, cfg.container),
        codec: spec_or(p.codec, cfg.codec),
        fps: spec_or(p.fps, cfg.fps),
        width: spec_or(p.width, cfg.width),
        height: spec_or(p.height, cfg.height),
        ffmpeg_path: spec_or(p.ffmpeg_path, cfg.ffmpeg_path),
        h264_crf: spec_or(p.h264_crf, cfg.h264_crf),
        h264_preset: spec_or(p.h264_preset, cfg.h264_preset),
        pix_fmt_out: spec_or(p.pix_fmt_out, cfg.pix_fmt_out),
        prores_profile: spec_or(p.prores_profile, cfg.prores_profile),
        vflip: spec_or(p.vflip, cfg.vflip),
        ..cfg
    }
}

/// The text that is in force: the override where it is set.
fn text_or(over: &Option<String>, base: String) -> (r: String)
    ensures
        r == spec_or(*over, base),
{
    match over {
        Some(v) => v.clone(),
        None => base,
    }
}

/// The number that is in force: the override where it is set.
fn number_or(over: Option<u32>, base: u32) -> (r: u32)
    ensures
        r == spec_or(over, base),
{
    match over {
        Some(v) => v,
        None => base,
    }
}

/// Lays a profile over the settings.
pub fn with_profile(cfg: RecordingCfg, p: &RecordingProfile) -> (r: RecordingCfg)
    ensures
        r == spec_with_profile(cfg, *p),
{
    RecordingCfg {
        enabled: cfg.enabled,
        toggle_keys: cfg.toggle_keys,
        start_keys: cfg.start_keys,
        stop_keys: cfg.stop_keys,
        out_dir: text_or(&p.out_dir, cfg.out_dir),
        ffmpeg_path: text_or(&p.ffmpeg_path, cfg.ffmpeg_path),
        fps: number_or(p.fps, cfg.fps),
        width: number_or(p.width, cfg.width),
        height: number_or(p.height, cfg.height),
        container: match p.container {
            Some(v) => v,
            None => cfg.container,
        },
        codec: match p.codec {
            Some(v) => v,
            None => cfg.codec,
        },
        h264_crf: number_or(p.h264_crf, cfg.h264_crf),
        h264_preset: text_or(&p.h264_preset, cfg.h264_preset),
        pix_fmt_out: text_or(&p.pix_fmt_out, cfg.pix_fmt_out),
        prores_profile: number_or(p.prores_profile, cfg.prores_profile),
        vflip: match p.vflip {
            Some(v) => v,
            None => cfg.vflip,
        },
    }
}

/// The hotkeys of the controller form of the settings.
pub struct RecordingHotkeys {
    pub toggle: Vec<String>,
    pub start: Vec<String>,
    pub stop: Vec<String>,
}

/// The controller form of the settings: hotkeys and the name of the
/// profile that supplies the rest.
pub struct RecordingController {
    pub enabled: bool,
    pub active_profile: Option<String>,
    pub hotkeys: RecordingHotkeys,
}

/// What was found of the profiles file.
pub enum ProfilesSource {
    /// The file is missing or cannot be read.
    Missing,
    /// The file does not hold profiles.
    Unparseable,
    /// The profiles of the file.
    Loaded(NameMap<RecordingProfile>),
}

/// What there is to say about how the settings were resolved.
#[derive(Clone, Copy, PartialEq, Eq, Structural, Debug)]
pub enum RecordingNotice {
    /// Nothing.
    Quiet,
    /// The active profile was applied.
    ProfileApplied,
    /// The profiles file does not hold the active profile.
    ProfileNotFound,
    /// The profiles file could not be understood.
    ProfilesUnparseable,
    /// An active profile is named and the profiles file is missing.
    ProfilesMissing,
    /// The settings could not be understood in either form.
    SettingsUnparseable,
}

/// Whether the controller form is in use: it names a profile or a hotkey.
pub open spec fn spec_is_controller(c: RecordingController) -> bool {
    c.active_profile is Some || c.hotkeys.start@.len() > 0 || c.hotkeys.stop@.len() > 0
        || c.hotkeys.toggle@.len() > 0
}

/// Whether the controller form is in use: it names a profile or a hotkey.
pub fn is_controller(c: &RecordingController) -> (r: bool)
    ensures
        r == spec_is_controller(*c),
{
    c.active_profile.is_some() || c.hotkeys.start.len() > 0 || c.hotkeys.stop.len() > 0
        || c.hotkeys.toggle.len() > 0
}

/// The notice that goes with a controller's profile lookup.
pub open spec fn spec_controller_notice(c: RecordingController, profiles: ProfilesSource) -> RecordingNotice {
    match c.active_profile {
        Some(active) => match profiles {
            ProfilesSource::Loaded(m) => if m@.contains_key(active@) {
                RecordingNotice::ProfileApplied
            } else {
                RecordingNotice::ProfileNotFound
            },
            ProfilesSource::Unparseable => RecordingNotice::ProfilesUnparseable,
            ProfilesSource::Missing => RecordingNotice::ProfilesMissing,
        },
        None => RecordingNotice::Quiet,
    }
}

/// Whether `cfg` is what a controller resolves to: the defaults, with the
/// controller's switch and hotkeys, and with the active profile laid over
/// them if the profiles file holds it.
pub open spec fn spec_controller_cfg(
    c: RecordingController,
    profiles: ProfilesSource,
    base: RecordingCfg,
    cfg: RecordingCfg,
) -> bool {
    let keyed = RecordingCfg {
        enabled: c.enabled,
        toggle_keys: c.hotkeys.toggle,
        start_keys: c.hotkeys.start,
        stop_keys: c.hotkeys.stop,
        ..base
    };
    if spec_controller_notice(c, profiles) == RecordingNotice::ProfileApplied {
        cfg == spec_with_profile(keyed, profiles->Loaded_0@[c.active_profile->0@])
    } else {
        cfg == keyed
    }
}

/// Resolves the recording settings from what was read.
///
/// `controller` is the settings file read in the controller form, `legacy`
/// the same file read as plain settings; either is `None` if the file does
/// not have that form. The controller form is used when it names a profile
/// or a hotkey; else the plain form; else the defaults.
pub fn resolve_recording_config(
    controller: Option<RecordingController>,
    profiles: ProfilesSource,
    legacy: Option<RecordingCfg>,
) -> (r: (RecordingCfg, RecordingNotice))
    requires
        profiles matches ProfilesSource::Loaded(m) ==> m.wf(),
    ensures
        match controller {
            Some(c) if spec_is_controller(c) => {
                &&& r.1 == spec_controller_notice(c, profiles)
                &&& exists|base: RecordingCfg| spec_is_default_cfg(base) && spec_controller_cfg(
                    c,
                    profiles,
                    base,
                    r.0,
                )
            },
            _ => match legacy {
                Some(cfg) => r.0 == cfg && r.1 == RecordingNotice::Quiet,
                None => spec_is_default_cfg(r.0) && r.1 == RecordingNotice::SettingsUnparseable,
            },
        },
{
    if let Some(c) = controller {
        if is_controller(&c) {
            let base = RecordingCfg::default();
            let ghost base0 = base;
            let keyed = RecordingCfg {
                enabled: c.enabled,
                toggle_keys: c.hotkeys.toggle,
                start_keys: c.hotkeys.start,
                stop_keys: c.hotkeys.stop,
                out_dir: base.out_dir,
                ffmpeg_path: base.ffmpeg_path,
                fps: base.fps,
                width: base.width,
                height: base.height,
                container: base.container,
                codec: base.codec,
                h264_crf: base.h264_crf,
                h264_preset: base.h264_preset,
                pix_fmt_out: base.pix_fmt_out,
                prores_profile: base.prores_profile,
                vflip: base.vflip,
            };
            let r = match &c.active_profile {
                Some(active) => match &profiles {
                    ProfilesSource::Loaded(m) => match m.get(active.as_str()) {
                        Some(p) => (with_profile(keyed, p), RecordingNotice::ProfileApplied),
                        None => (keyed, RecordingNotice::ProfileNotFound),
                    },
                    ProfilesSource::Unparseable => (keyed, RecordingNotice::ProfilesUnparseable),
                    ProfilesSource::Missing => (keyed, RecordingNotice::ProfilesMissing),
                },
                None => (keyed, RecordingNotice::Quiet),
            };
            assert(spec_controller_cfg(c, profiles, base0, r.0));
            return r;
        }
    }
    match legacy {
        Some(cfg) => (cfg, RecordingNotice::Quiet),
        None => (RecordingCfg::default(), RecordingNotice::SettingsUnparseable),
    }
}

} // verus!
