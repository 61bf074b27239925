//! The capture pipeline: double-buffered read-back of the rendered frame at
//! the recording resolution, and the rule for recording settings that
//! change while a recording runs.
//!
//! Each frame the read-back of the capture surface is issued into one of
//! two transfer buffers, and the buffer that was issued the frame before is
//! read and forwarded. The pipeline decides which buffer is which; the
//! caller does the transfers.

use vstd::prelude::*;

verus! {

/// A size in pixels.
#[derive(Clone, Copy, PartialEq, Eq, Structural, Debug)]
pub struct Size {
    pub w: u32,
    pub h: u32,
}

/// The state of the pipeline.
#[derive(Clone, Copy, PartialEq, Eq, Structural, Debug)]
pub struct CaptureState {
    /// Size of the capture surface and its two buffers; `None` while
    /// nothing is allocated.
    pub size: Option<Size>,
    /// The buffer, 0 or 1, that receives the next read-back.
    pub index: u8,
    /// Whether the other buffer holds a frame that was issued before.
    pub primed: bool,
}

/// What happens to the capture surface and its buffers before a frame.
#[derive(Clone, Copy, PartialEq, Eq, Structural, Debug)]
pub enum SurfaceStep {
    /// They fit: nothing to do.
    Keep,
    /// There are none yet: create them.
    Create,
    /// They have another size: destroy them and create new ones.
    Replace,
}

/// What the caller does for one frame.
#[derive(Clone, Copy, PartialEq, Eq, Structural, Debug)]
pub struct CaptureStep {
    /// What to do to the surface and the buffers first.
    pub surface: SurfaceStep,
    /// Size of each transfer buffer in bytes.
    pub buffer_bytes: u64,
    /// The buffer into which this frame's read-back is issued.
    pub write: u8,
    /// The buffer to read and forward, if one is ready.
    pub read: Option<u8>,
}

/// Whether a surface of this size can be captured: both sides are positive
/// and fit a signed 32-bit size.
pub open spec fn spec_capturable(w: u32, h: u32) -> bool {
    0 < w <= 0x7FFF_FFFF && 0 < h <= 0x7FFF_FFFF
}

/// The other buffer.
pub open spec fn spec_other(index: u8) -> u8 {
    if index == 0 {
        1
    } else {
        0
    }
}

/// The state in which a frame of `w` by `h` is captured: the given one if
/// it fits that size, else a fresh one of that size.
pub open spec fn spec_fitted(s: CaptureState, w: u32, h: u32) -> CaptureState {
    if s.size == Some(Size { w, h }) {
        s
    } else {
        CaptureState { size: Some(Size { w, h }), index: 0, primed: false }
    }
}

/// One frame of an active session at `w` by `h`: the state afterwards and
/// what the caller does. A size that cannot be captured changes nothing.
pub open spec fn spec_capture_frame(s: CaptureState, w: u32, h: u32) -> (CaptureState, Option<CaptureStep>) {
    if !spec_capturable(w, h) {
        (s, None)
    } else {
        let fitted = spec_fitted(s, w, h);
        let step = CaptureStep {
            surface: if s.size is None {
                SurfaceStep::Create
            } else if s.size != Some(Size { w, h }) {
                SurfaceStep::Replace
            } else {
                SurfaceStep::Keep
            },
            buffer_bytes: (w * h * 4) as u64,
            write: fitted.index,
            read: if fitted.primed {
                Some(spec_other(fitted.index))
            } else {
                None
            },
        };
        (
            CaptureState { size: fitted.size, index: spec_other(fitted.index), primed: true },
            Some(step),
        )
    }
}

/// How many of `n` consecutive frames at `w` by `h`, starting in state `s`,
/// have a buffer read and forwarded.
pub open spec fn spec_forwarded(s: CaptureState, w: u32, h: u32, n: nat) -> nat
    decreases n,
{
    if n == 0 {
        0
    } else {
        let (next, step) = spec_capture_frame(s, w, h);
        let here: nat = if step matches Some(st) && st.read is Some {
            1
        } else {
            0
        };
        here + spec_forwarded(next, w, h, (n - 1) as nat)
    }
}

/// The state after `n` consecutive frames at `w` by `h`.
pub open spec fn spec_after_frames(s: CaptureState, w: u32, h: u32, n: nat) -> CaptureState
    decreases n,
{
    if n == 0 {
        s
    } else {
        spec_after_frames(spec_capture_frame(s, w, h).0, w, h, (n - 1) as nat)
    }
}

impl CaptureState {
    /// The index names one of the two buffers.
    pub open spec fn wf(&self) -> bool {
        self.index < 2
    }

    /// A pipeline with nothing allocated.
    pub fn new() -> (r: Self)
        ensures
            r == (CaptureState { size: None, index: 0, primed: false }),
            r.wf(),
    {
        CaptureState { size: None, index: 0, primed: false }
    }

    /// Begins a session: the next frame is the first one, and nothing is
    /// read back before the second.
    pub fn begin_session(&mut self)
        ensures
            *final(self) == (CaptureState { size: old(self).size, index: 0, primed: false }),
            final(self).wf(),
    {
        self.index = 0;
        self.primed = false;
    }

    /// Forgets the surface and the buffers, which the caller destroys.
    pub fn reset(&mut self)
        ensures
            *final(self) == (CaptureState { size: None, index: 0, primed: false }),
            final(self).wf(),
    {
        self.size = None;
        self.index = 0;
        self.primed = false;
    }

    /// Plans one frame of an active session at `w` by `h` pixels.
    ///
    /// A change of size replaces the surface and both buffers and starts
    /// over: nothing is read from a buffer that was just allocated.
    pub fn frame(&mut self, w: u32, h: u32) -> (step: Option<CaptureStep>)
        requires
            old(self).wf(),
        ensures
            final(self).wf(),
            (*final(self), step) == spec_capture_frame(*old(self), w, h),
    {
        if w == 0 || h == 0 || w > 0x7FFF_FFFF || h > 0x7FFF_FFFF {
            return None;
        }
        let surface = match self.size {
            None => SurfaceStep::Create,
            Some(cur) => if cur.w != w || cur.h != h {
                SurfaceStep::Replace
            } else {
                SurfaceStep::Keep
            },
        };
        if surface != SurfaceStep::Keep {
            self.size = Some(Size { w, h });
            self.index = 0;
            self.primed = false;
        }
        assert(w * h * 4 <= 0x7FFF_FFFF * 0x7FFF_FFFF * 4) by (nonlinear_arith)
            requires
                0 < w <= 0x7FFF_FFFF,
                0 < h <= 0x7FFF_FFFF,
        ;
        let bytes: u64 = (w as u64) * (h as u64) * 4;
        let write = self.index;
        let other: u8 = if write == 0 {
            1
        } else {
            0
        };
        let read = if self.primed {
            Some(other)
        } else {
            None
        };
        self.index = other;
        self.primed = true;
        Some(CaptureStep { surface, buffer_bytes: bytes, write, read })
    }
}

/// Once a session runs at a size, every frame forwards a buffer.
pub proof fn lemma_steady_forwarding(s: CaptureState, w: u32, h: u32, n: nat)
    requires
        spec_capturable(w, h),
        s.size == Some(Size { w, h }),
        s.primed,
    ensures
        spec_forwarded(s, w, h, n) == n,
    decreases n,
{
    if n > 0 {
        lemma_steady_forwarding(spec_capture_frame(s, w, h).0, w, h, (n - 1) as nat);
    }
}

/// One frame of latency: of the first `n` frames of a session, all but the
/// first forward a buffer.
pub proof fn lemma_one_frame_latency(s: CaptureState, w: u32, h: u32, n: nat)
    requires
        spec_capturable(w, h),
        !s.primed,
        n >= 1,
    ensures
        spec_forwarded(s, w, h, n) == n - 1,
{
    lemma_steady_forwarding(spec_capture_frame(s, w, h).0, w, h, (n - 1) as nat);
}

/// Ping-pong: the buffer that a frame reads is the one that the frame
/// before it wrote.
pub proof fn lemma_reads_previous_write(s: CaptureState, w: u32, h: u32)
    requires
        s.wf(),
        spec_capturable(w, h),
    ensures
        ({
            let (s1, first) = spec_capture_frame(s, w, h);
            let (s2, second) = spec_capture_frame(s1, w, h);
            second matches Some(b) && first matches Some(a) && b.read == Some(a.write) && b.write
                != a.write
        }),
{
}

/// A change of size never reads a buffer of the old size.
pub proof fn lemma_resize_reads_nothing(s: CaptureState, w: u32, h: u32)
    requires
        spec_capturable(w, h),
        s.size != Some(Size { w, h }),
    ensures
        spec_capture_frame(s, w, h).1 matches Some(step) && step.read is None && step.surface
            != SurfaceStep::Keep,
{
}

/// Recording settings that change while a recording runs are held back
/// until it has stopped.
#[derive(Clone, Copy, PartialEq, Eq, Structural, Debug)]
pub struct ReloadGate {
    /// Whether a change is held back.
    pub pending: bool,
}

impl ReloadGate {
    /// A gate that holds nothing back.
    pub fn new() -> (r: Self)
        ensures
            !r.pending,
    {
        ReloadGate { pending: false }
    }

    /// Takes the news that the settings changed on disk. Returns whether to
    /// load them now: never while a recording runs, in which case the
    /// change is held back.
    pub fn config_changed(&mut self, recording: bool) -> (apply_now: bool)
        ensures
            apply_now == !recording,
            final(self).pending == (old(self).pending || recording),
    {
        if recording {
            self.pending = true;
            false
        } else {
            true
        }
    }

    /// Asks whether a change that was held back is due: it is once no
    /// recording runs, and then it is no longer held back.
    pub fn poll(&mut self, recording: bool) -> (apply_now: bool)
        ensures
            apply_now == (old(self).pending && !recording),
            final(self).pending == (old(self).pending && recording),
    {
        if self.pending && !recording {
            self.pending = false;
            true
        } else {
            false
        }
    }
}

/// What a recording hotkey asks for.
#[derive(Clone, Copy, PartialEq, Eq, Structural, Debug)]
pub enum RecHotkeyAction {
    Toggle,
    Start,
    Stop,
}

/// What is done about a recording hotkey.
#[derive(Clone, Copy, PartialEq, Eq, Structural, Debug)]
pub enum RecCommand {
    /// Start a recording.
    Start,
    /// Stop the recording.
    Stop,
    /// Nothing: a recording already runs.
    AlreadyRecording,
    /// Nothing: no recording runs.
    NotRecording,
    /// Nothing: recording is disabled in the settings.
    Disabled,
}

/// What a hotkey leads to, given whether a recording runs and whether
/// recording is enabled.
pub open spec fn spec_recording_command(action: RecHotkeyAction, recording: bool, enabled: bool) -> RecCommand {
    match action {
        RecHotkeyAction::Toggle => if recording {
            RecCommand::Stop
        } else if enabled {
            RecCommand::Start
        } else {
            RecCommand::Disabled
        },
        RecHotkeyAction::Start => if recording {
            RecCommand::AlreadyRecording
        } else if enabled {
            RecCommand::Start
        } else {
            RecCommand::Disabled
        },
        RecHotkeyAction::Stop => if recording {
            RecCommand::Stop
        } else {
            RecCommand::NotRecording
        },
    }
}

/// Decides what to do about a recording hotkey.
pub fn recording_command(action: RecHotkeyAction, recording: bool, enabled: bool) -> (r: RecCommand)
    ensures
        r == spec_recording_command(action, recording, enabled),
{
    match action {
        RecHotkeyAction::Toggle => if recording {
            RecCommand::Stop
        } else if enabled {
            RecCommand::Start
        } else {
            RecCommand::Disabled
        },
        RecHotkeyAction::Start => if recording {
            RecCommand::AlreadyRecording
        } else if enabled {
            RecCommand::Start
        } else {
            RecCommand::Disabled
        },
        RecHotkeyAction::Stop => if recording {
            RecCommand::Stop
        } else {
            RecCommand::NotRecording
        },
    }
}

} // verus!
