//! The output configuration: the mode a run starts in, the settings of each
//! sink, the hotkeys and the preview.

use vstd::prelude::*;
use vstd::string::*;
use crate::assets::Platform;
use crate::hotkeys::{HotkeysCfg, PreviewCfg, PreviewScaleMode};
use crate::output::{OutputMode, SinkPolicy};
use crate::sinks::{NdiCfg, SpoutCfg, StreamCfg, StreamTarget, SyphonCfg};
use crate::text::views;

verus! {

/// The output configuration.
pub struct OutputConfigFile {
    pub output_mode: OutputMode,
    pub syphon: SyphonCfg,
    pub spout: SpoutCfg,
    pub stream: StreamCfg,
    pub ndi: NdiCfg,
    pub hotkeys: HotkeysCfg,
    pub preview: PreviewCfg,
}

/// Whether `cfg` holds the default settings with `mode` as the mode.
pub open spec fn spec_is_default_output(cfg: OutputConfigFile, mode: OutputMode) -> bool {
    &&& cfg.output_mode == mode
    &&& cfg.syphon.enabled && cfg.syphon.server_name is None
    &&& !cfg.spout.enabled && cfg.spout.sender_name is None && cfg.spout.invert
    &&& !cfg.stream.enabled && cfg.stream.target == StreamTarget::Rtsp
    &&& cfg.stream.rtsp_url@ == "rtsp://127.0.0.1:8554/shadecore"@
    &&& cfg.stream.rtmp_url is None && cfg.stream.fps == 60 && cfg.stream.bitrate_kbps == 8000
    &&& cfg.stream.gop == 120 && cfg.stream.vflip && cfg.stream.ffmpeg_path is None
    &&& !cfg.ndi.enabled && cfg.ndi.name is None && cfg.ndi.groups is None && cfg.ndi.clock_video
    &&& cfg.ndi.fps_n == 60 && cfg.ndi.fps_d == 1 && cfg.ndi.vflip
    &&& views(cfg.hotkeys.texture@) == seq!["Digit1"@, "Numpad1"@]
    &&& views(cfg.hotkeys.syphon@) == seq!["Digit2"@, "Numpad2"@]
    &&& views(cfg.hotkeys.spout@) == seq!["Digit3"@, "Numpad3"@]
    &&& views(cfg.hotkeys.stream@) == seq!["Digit4"@, "Numpad4"@]
    &&& views(cfg.hotkeys.ndi@) == seq!["Digit6"@, "Numpad6"@]
    &&& cfg.preview.enabled && cfg.preview.scale_mode == PreviewScaleMode::Fit
    &&& views(cfg.preview.hotkeys.fit@) == seq!["Digit7"@, "Numpad7"@]
    &&& views(cfg.preview.hotkeys.fill@) == seq!["Digit8"@, "Numpad8"@]
    &&& views(cfg.preview.hotkeys.stretch@) == seq!["Digit9"@, "Numpad9"@]
    &&& views(cfg.preview.hotkeys.pixel@) == seq!["Digit0"@, "Numpad0"@]
}

/// The configuration of a run that has none of its own.
pub fn default_output_config(default_mode: OutputMode) -> (r: OutputConfigFile)
    ensures
        spec_is_default_output(r, default_mode),
{
    OutputConfigFile {
        output_mode: default_mode,
        syphon: SyphonCfg::default(),
        spout: SpoutCfg::default(),
        stream: StreamCfg::default(),
        ndi: NdiCfg::default(),
        hotkeys: HotkeysCfg::default(),
        preview: PreviewCfg::default(),
    }
}

/// The configuration to run with: the one that was read, or the defaults
/// when none could be read.
pub fn load_output_config(parsed: Option<OutputConfigFile>, default_mode: OutputMode) -> (r:
    OutputConfigFile)
    ensures
        match parsed {
            Some(cfg) => r == cfg,
            None => spec_is_default_output(r, default_mode),
        },
{
    match parsed {
        Some(cfg) => cfg,
        None => default_output_config(default_mode),
    }
}

/// The mode a platform starts in when the configuration names none: its
/// own shared-texture protocol if the build has it, else the local
/// texture.
pub open spec fn spec_platform_default_mode(os: Platform, has_syphon: bool) -> OutputMode {
    match os {
        Platform::Windows => OutputMode::Spout,
        Platform::Macos => if has_syphon {
            OutputMode::Syphon
        } else {
            OutputMode::Texture
        },
        _ => OutputMode::Texture,
    }
}

/// The mode a platform starts in when the configuration names none.
pub fn platform_default_mode(os: Platform, has_syphon: bool) -> (r: OutputMode)
    ensures
        r == spec_platform_default_mode(os, has_syphon),
{
    match os {
        Platform::Windows => OutputMode::Spout,
        Platform::Macos => if has_syphon {
            OutputMode::Syphon
        } else {
            OutputMode::Texture
        },
        _ => OutputMode::Texture,
    }
}

/// What the router may use: each sink is enabled as the configuration says
/// and available as the build has it. Syphon exists on macOS builds that
/// carry it, Spout on Windows builds, the stream everywhere, NDI where it
/// was built in.
pub fn sink_policy(cfg: &OutputConfigFile, os: Platform, has_syphon: bool, has_ndi: bool) -> (r:
    SinkPolicy)
    ensures
        r == (SinkPolicy {
            syphon_enabled: cfg.syphon.enabled,
            syphon_available: os == Platform::Macos && has_syphon,
            spout_enabled: cfg.spout.enabled,
            spout_available: os == Platform::Windows,
            stream_enabled: cfg.stream.enabled,
            stream_available: true,
            ndi_enabled: cfg.ndi.enabled,
            ndi_available: has_ndi,
        }),
{
    SinkPolicy {
        syphon_enabled: cfg.syphon.enabled,
        syphon_available: os == Platform::Macos && has_syphon,
        spout_enabled: cfg.spout.enabled,
        spout_available: os == Platform::Windows,
        stream_enabled: cfg.stream.enabled,
        stream_available: true,
        ndi_enabled: cfg.ndi.enabled,
        ndi_available: has_ndi,
    }
}

/// The name a sink is announced under: the configured one, else the
/// engine's.
pub fn sink_name(configured: &Option<String>) -> (r: String)
    ensures
        r@ == match *configured {
            Some(n) => n@,
            None => "shadecore"@,
        },
{
    match configured {
        Some(n) => n.clone(),
        None => String::from_str("shadecore"),
    }
}

/// The word for a mode.
pub open spec fn spec_mode_word(mode: OutputMode) -> Seq<char> {
    match mode {
        OutputMode::Texture => "Texture"@,
        OutputMode::Syphon => "Syphon"@,
        OutputMode::Spout => "Spout"@,
        OutputMode::Stream => "Stream"@,
        OutputMode::Ndi => "Ndi"@,
    }
}

/// The word for a mode.
pub fn mode_word(mode: OutputMode) -> (r: &'static str)
    ensures
        r@ == spec_mode_word(mode),
{
    match mode {
        OutputMode::Texture => "Texture",
        OutputMode::Syphon => "Syphon",
        OutputMode::Spout => "Spout",
        OutputMode::Stream => "Stream",
        OutputMode::Ndi => "Ndi",
    }
}

/// The title of the window while `mode` is current.
pub fn window_title(mode: OutputMode) -> (r: String)
    ensures
        r@ == "shadecore - output: "@ + spec_mode_word(mode)
            + " (press 1=Texture, 2=Syphon, 3=Spout, 4=Stream, 6=NDI)"@,
{
    let mut out = String::from_str("shadecore - output: ");
    out.append(mode_word(mode));
    out.append(" (press 1=Texture, 2=Syphon, 3=Spout, 4=Stream, 6=NDI)");
    out
}

} // verus!
